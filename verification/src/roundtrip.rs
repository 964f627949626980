use crate::ast::{BaseType, IdentV, TypeKindV, TypeV};
use crate::ast::{sim_field, sim_fields, sim_type, CommentV, ItemV};
use crate::grammar::{
    base_keyword, has_chars, id_end, parse_comment_line, is_id_char, is_line_sp_char, is_sp_char, kw_array, kw_at,
    kw_map, kw_option, line_end, parse_base, parse_ident, parse_type, skip_line_sp, skip_sp,
    try_array_type, try_map_type, try_option_type,
};
use crate::printer::{print_type, wf_type, wf_user_name};
use vstd::prelude::*;

verus! {

// ---------------------------------------------------------------------------
// The round-trip argument, built grammar rule by grammar rule: text the
// printer produced, embedded anywhere in a larger input, parses back to a
// node structurally equal to the one printed. The `follow_char` condition
// names the characters the printer can place directly after a printed
// fragment; each lemma needs it to know where greedy scanning stops.
// ---------------------------------------------------------------------------

/// The characters the printer places directly after a type: a separating
/// or closing delimiter, never whitespace.
pub open spec fn follow_char(c: char) -> bool {
    c == ',' || c == '>'
}

/// A run of identifier characters ends exactly at its boundary.
pub proof fn lemma_id_end_run(s: Seq<char>, i: int, n: int)
    requires
        0 <= i,
        0 <= n,
        i + n <= s.len(),
        forall|k: int| 0 <= k < n ==> is_id_char(#[trigger] s[i + k]),
        i + n == s.len() || !is_id_char(s[i + n]),
    ensures
        id_end(s, i) == i + n,
    decreases n,
{
    if n == 0 {
    } else {
        assert(s[i] == s[i + 0]);
        assert(is_id_char(s[i]));
        assert forall|k: int| 0 <= k < n - 1 implies is_id_char(#[trigger] s[i + 1 + k]) by {
            assert(s[i + 1 + k] == s[i + (k + 1)]);
        }
        lemma_id_end_run(s, i + 1, n - 1);
    }
}

/// A run of characters without a line break ends exactly at the next one.
pub proof fn lemma_line_end_run(s: Seq<char>, i: int, n: int)
    requires
        0 <= i,
        0 <= n,
        i + n < s.len(),
        forall|k: int| 0 <= k < n ==> #[trigger] s[i + k] != '\n',
        s[i + n] == '\n',
    ensures
        line_end(s, i) == i + n,
    decreases n,
{
    if n == 0 {
    } else {
        assert(s[i] == s[i + 0]);
        assert(s[i] != '\n');
        assert forall|k: int| 0 <= k < n - 1 implies #[trigger] s[i + 1 + k] != '\n' by {
            assert(s[i + 1 + k] == s[i + (k + 1)]);
        }
        lemma_line_end_run(s, i + 1, n - 1);
    }
}

/// Text whose characters equal a word, occurring at a position, is that
/// word occurring there.
pub proof fn lemma_has_chars(s: Seq<char>, i: int, w: Seq<char>)
    requires
        0 <= i,
        i + w.len() <= s.len(),
        s.subrange(i, i + w.len()) == w,
    ensures
        has_chars(s, i, w),
{
    assert forall|k: int| 0 <= k < w.len() implies s[i + k] == w[k] by {
        assert(s.subrange(i, i + w.len())[k] == s[i + k]);
    }
}

/// A printed identifier, followed by a non-identifier character, parses
/// back to itself.
pub proof fn lemma_ident_rt(s: Seq<char>, i: int, name: Seq<char>)
    requires
        0 <= i,
        i + name.len() <= s.len(),
        s.subrange(i, i + name.len()) == name,
        name.len() > 0,
        forall|k: int| 0 <= k < name.len() ==> is_id_char(#[trigger] name[k]),
        i + name.len() == s.len() || !is_id_char(s[i + name.len()]),
    ensures
        parse_ident(s, i) == Option::Some(
            (IdentV { pos: i, text: name }, i + name.len()),
        ),
{
    assert forall|k: int| 0 <= k < name.len() implies is_id_char(#[trigger] s[i + k]) by {
        assert(s.subrange(i, i + name.len())[k] == s[i + k]);
    }
    lemma_id_end_run(s, i, name.len() as int);
    assert(s.subrange(i, i + name.len()) =~= s.subrange(i, id_end(s, i)));
}

/// Every character of a base-type keyword is an identifier character.
pub proof fn lemma_base_keyword_chars(b: BaseType)
    ensures
        forall|k: int| 0 <= k < base_keyword(b).len() ==> is_id_char(#[trigger] base_keyword(b)[k]),
        base_keyword(b).len() > 0,
        is_id_char(base_keyword(b)[0]),
        base_keyword(b)[0] != 'M' && base_keyword(b)[0] != 'A' && base_keyword(b)[0] != 'O',
{
    match b {
        BaseType::Bool => {
            assert forall|k: int| 0 <= k < base_keyword(b).len() implies is_id_char(
                base_keyword(b)[k],
            ) by {
                if k == 0 {
            } else if k == 1 {
            } else if k == 2 {
            } else if k == 3 {
            } else {
                assert(false);
            }
            }
        },
        BaseType::Int32 => {
            assert forall|k: int| 0 <= k < base_keyword(b).len() implies is_id_char(
                base_keyword(b)[k],
            ) by {
                if k == 0 {
            } else if k == 1 {
            } else if k == 2 {
            } else if k == 3 {
            } else if k == 4 {
            } else {
                assert(false);
            }
            }
        },
        BaseType::Int64 => {
            assert forall|k: int| 0 <= k < base_keyword(b).len() implies is_id_char(
                base_keyword(b)[k],
            ) by {
                if k == 0 {
            } else if k == 1 {
            } else if k == 2 {
            } else if k == 3 {
            } else if k == 4 {
            } else {
                assert(false);
            }
            }
        },
        BaseType::UInt32 => {
            assert forall|k: int| 0 <= k < base_keyword(b).len() implies is_id_char(
                base_keyword(b)[k],
            ) by {
                if k == 0 {
            } else if k == 1 {
            } else if k == 2 {
            } else if k == 3 {
            } else if k == 4 {
            } else if k == 5 {
            } else {
                assert(false);
            }
            }
        },
        BaseType::UInt64 => {
            assert forall|k: int| 0 <= k < base_keyword(b).len() implies is_id_char(
                base_keyword(b)[k],
            ) by {
                if k == 0 {
            } else if k == 1 {
            } else if k == 2 {
            } else if k == 3 {
            } else if k == 4 {
            } else if k == 5 {
            } else {
                assert(false);
            }
            }
        },
        BaseType::Float32 => {
            assert forall|k: int| 0 <= k < base_keyword(b).len() implies is_id_char(
                base_keyword(b)[k],
            ) by {
                if k == 0 {
            } else if k == 1 {
            } else if k == 2 {
            } else if k == 3 {
            } else if k == 4 {
            } else if k == 5 {
            } else if k == 6 {
            } else {
                assert(false);
            }
            }
        },
        BaseType::Float64 => {
            assert forall|k: int| 0 <= k < base_keyword(b).len() implies is_id_char(
                base_keyword(b)[k],
            ) by {
                if k == 0 {
            } else if k == 1 {
            } else if k == 2 {
            } else if k == 3 {
            } else if k == 4 {
            } else if k == 5 {
            } else if k == 6 {
            } else {
                assert(false);
            }
            }
        },
        BaseType::Text => {
            assert forall|k: int| 0 <= k < base_keyword(b).len() implies is_id_char(
                base_keyword(b)[k],
            ) by {
                if k == 0 {
            } else if k == 1 {
            } else if k == 2 {
            } else if k == 3 {
            } else if k == 4 {
            } else if k == 5 {
            } else {
                assert(false);
            }
            }
        },
        BaseType::Bytes => {
            assert forall|k: int| 0 <= k < base_keyword(b).len() implies is_id_char(
                base_keyword(b)[k],
            ) by {
                if k == 0 {
            } else if k == 1 {
            } else if k == 2 {
            } else if k == 3 {
            } else if k == 4 {
            } else {
                assert(false);
            }
            }
        },
        BaseType::Timestamp => {
            assert forall|k: int| 0 <= k < base_keyword(b).len() implies is_id_char(
                base_keyword(b)[k],
            ) by {
                if k == 0 {
            } else if k == 1 {
            } else if k == 2 {
            } else if k == 3 {
            } else if k == 4 {
            } else if k == 5 {
            } else if k == 6 {
            } else if k == 7 {
            } else if k == 8 {
            } else {
                assert(false);
            }
            }
        },
    }
}

/// A printed base-type keyword, followed by a non-identifier character,
/// parses back as that base type: no keyword earlier in the chain can
/// match it.
pub proof fn lemma_base_rt(s: Seq<char>, i: int, b: BaseType)
    requires
        0 <= i,
        i + base_keyword(b).len() <= s.len(),
        s.subrange(i, i + base_keyword(b).len()) == base_keyword(b),
        i + base_keyword(b).len() == s.len() || !is_id_char(s[i + base_keyword(b).len()]),
    ensures
        parse_base(s, i) == Option::Some((b, i + base_keyword(b).len())),
{
    lemma_has_chars(s, i, base_keyword(b));
    assert forall|k: int| 0 <= k < base_keyword(b).len() implies s[i + k] == base_keyword(b)[k]
        by {
        assert(s.subrange(i, i + base_keyword(b).len())[k] == s[i + k]);
    }
    assert(kw_at(s, i, base_keyword(b)));
    match b {
        BaseType::Bool => {
            // first keyword in the chain
        },
        BaseType::Int32 => {
            if kw_at(s, i, base_keyword(BaseType::Bool)) {
                assert(s[i + 0] == base_keyword(BaseType::Bool)[0]);
                assert(false);
            }
        },
        BaseType::Int64 => {
            if kw_at(s, i, base_keyword(BaseType::Bool)) {
                assert(s[i + 0] == base_keyword(BaseType::Bool)[0]);
                assert(false);
            }
            if kw_at(s, i, base_keyword(BaseType::Int32)) {
                assert(s[i + 3] == base_keyword(BaseType::Int32)[3]);
                assert(false);
            }
        },
        BaseType::UInt32 => {
            if kw_at(s, i, base_keyword(BaseType::Bool)) {
                assert(s[i + 0] == base_keyword(BaseType::Bool)[0]);
                assert(false);
            }
            if kw_at(s, i, base_keyword(BaseType::Int32)) {
                assert(s[i + 0] == base_keyword(BaseType::Int32)[0]);
                assert(false);
            }
            if kw_at(s, i, base_keyword(BaseType::Int64)) {
                assert(s[i + 0] == base_keyword(BaseType::Int64)[0]);
                assert(false);
            }
        },
        BaseType::UInt64 => {
            if kw_at(s, i, base_keyword(BaseType::Bool)) {
                assert(s[i + 0] == base_keyword(BaseType::Bool)[0]);
                assert(false);
            }
            if kw_at(s, i, base_keyword(BaseType::Int32)) {
                assert(s[i + 0] == base_keyword(BaseType::Int32)[0]);
                assert(false);
            }
            if kw_at(s, i, base_keyword(BaseType::Int64)) {
                assert(s[i + 0] == base_keyword(BaseType::Int64)[0]);
                assert(false);
            }
            if kw_at(s, i, base_keyword(BaseType::UInt32)) {
                assert(s[i + 4] == base_keyword(BaseType::UInt32)[4]);
                assert(false);
            }
        },
        BaseType::Float32 => {
            if kw_at(s, i, base_keyword(BaseType::Bool)) {
                assert(s[i + 0] == base_keyword(BaseType::Bool)[0]);
                assert(false);
            }
            if kw_at(s, i, base_keyword(BaseType::Int32)) {
                assert(s[i + 0] == base_keyword(BaseType::Int32)[0]);
                assert(false);
            }
            if kw_at(s, i, base_keyword(BaseType::Int64)) {
                assert(s[i + 0] == base_keyword(BaseType::Int64)[0]);
                assert(false);
            }
            if kw_at(s, i, base_keyword(BaseType::UInt32)) {
                assert(s[i + 0] == base_keyword(BaseType::UInt32)[0]);
                assert(false);
            }
            if kw_at(s, i, base_keyword(BaseType::UInt64)) {
                assert(s[i + 0] == base_keyword(BaseType::UInt64)[0]);
                assert(false);
            }
        },
        BaseType::Float64 => {
            if kw_at(s, i, base_keyword(BaseType::Bool)) {
                assert(s[i + 0] == base_keyword(BaseType::Bool)[0]);
                assert(false);
            }
            if kw_at(s, i, base_keyword(BaseType::Int32)) {
                assert(s[i + 0] == base_keyword(BaseType::Int32)[0]);
                assert(false);
            }
            if kw_at(s, i, base_keyword(BaseType::Int64)) {
                assert(s[i + 0] == base_keyword(BaseType::Int64)[0]);
                assert(false);
            }
            if kw_at(s, i, base_keyword(BaseType::UInt32)) {
                assert(s[i + 0] == base_keyword(BaseType::UInt32)[0]);
                assert(false);
            }
            if kw_at(s, i, base_keyword(BaseType::UInt64)) {
                assert(s[i + 0] == base_keyword(BaseType::UInt64)[0]);
                assert(false);
            }
            if kw_at(s, i, base_keyword(BaseType::Float32)) {
                assert(s[i + 5] == base_keyword(BaseType::Float32)[5]);
                assert(false);
            }
        },
        BaseType::Text => {
            if kw_at(s, i, base_keyword(BaseType::Bool)) {
                assert(s[i + 0] == base_keyword(BaseType::Bool)[0]);
                assert(false);
            }
            if kw_at(s, i, base_keyword(BaseType::Int32)) {
                assert(s[i + 0] == base_keyword(BaseType::Int32)[0]);
                assert(false);
            }
            if kw_at(s, i, base_keyword(BaseType::Int64)) {
                assert(s[i + 0] == base_keyword(BaseType::Int64)[0]);
                assert(false);
            }
            if kw_at(s, i, base_keyword(BaseType::UInt32)) {
                assert(s[i + 0] == base_keyword(BaseType::UInt32)[0]);
                assert(false);
            }
            if kw_at(s, i, base_keyword(BaseType::UInt64)) {
                assert(s[i + 0] == base_keyword(BaseType::UInt64)[0]);
                assert(false);
            }
            if kw_at(s, i, base_keyword(BaseType::Float32)) {
                assert(s[i + 0] == base_keyword(BaseType::Float32)[0]);
                assert(false);
            }
            if kw_at(s, i, base_keyword(BaseType::Float64)) {
                assert(s[i + 0] == base_keyword(BaseType::Float64)[0]);
                assert(false);
            }
        },
        BaseType::Bytes => {
            if kw_at(s, i, base_keyword(BaseType::Bool)) {
                assert(s[i + 1] == base_keyword(BaseType::Bool)[1]);
                assert(false);
            }
            if kw_at(s, i, base_keyword(BaseType::Int32)) {
                assert(s[i + 0] == base_keyword(BaseType::Int32)[0]);
                assert(false);
            }
            if kw_at(s, i, base_keyword(BaseType::Int64)) {
                assert(s[i + 0] == base_keyword(BaseType::Int64)[0]);
                assert(false);
            }
            if kw_at(s, i, base_keyword(BaseType::UInt32)) {
                assert(s[i + 0] == base_keyword(BaseType::UInt32)[0]);
                assert(false);
            }
            if kw_at(s, i, base_keyword(BaseType::UInt64)) {
                assert(s[i + 0] == base_keyword(BaseType::UInt64)[0]);
                assert(false);
            }
            if kw_at(s, i, base_keyword(BaseType::Float32)) {
                assert(s[i + 0] == base_keyword(BaseType::Float32)[0]);
                assert(false);
            }
            if kw_at(s, i, base_keyword(BaseType::Float64)) {
                assert(s[i + 0] == base_keyword(BaseType::Float64)[0]);
                assert(false);
            }
            if kw_at(s, i, base_keyword(BaseType::Text)) {
                assert(s[i + 0] == base_keyword(BaseType::Text)[0]);
                assert(false);
            }
        },
        BaseType::Timestamp => {
            if kw_at(s, i, base_keyword(BaseType::Bool)) {
                assert(s[i + 0] == base_keyword(BaseType::Bool)[0]);
                assert(false);
            }
            if kw_at(s, i, base_keyword(BaseType::Int32)) {
                assert(s[i + 0] == base_keyword(BaseType::Int32)[0]);
                assert(false);
            }
            if kw_at(s, i, base_keyword(BaseType::Int64)) {
                assert(s[i + 0] == base_keyword(BaseType::Int64)[0]);
                assert(false);
            }
            if kw_at(s, i, base_keyword(BaseType::UInt32)) {
                assert(s[i + 0] == base_keyword(BaseType::UInt32)[0]);
                assert(false);
            }
            if kw_at(s, i, base_keyword(BaseType::UInt64)) {
                assert(s[i + 0] == base_keyword(BaseType::UInt64)[0]);
                assert(false);
            }
            if kw_at(s, i, base_keyword(BaseType::Float32)) {
                assert(s[i + 0] == base_keyword(BaseType::Float32)[0]);
                assert(false);
            }
            if kw_at(s, i, base_keyword(BaseType::Float64)) {
                assert(s[i + 0] == base_keyword(BaseType::Float64)[0]);
                assert(false);
            }
            if kw_at(s, i, base_keyword(BaseType::Text)) {
                assert(s[i + 0] == base_keyword(BaseType::Text)[0]);
                assert(false);
            }
            if kw_at(s, i, base_keyword(BaseType::Bytes)) {
                assert(s[i + 0] == base_keyword(BaseType::Bytes)[0]);
                assert(false);
            }
        },
    }
}


/// What a printed type begins with: at least one character, never
/// whitespace.
pub proof fn lemma_print_type_head(t: TypeV)
    requires
        wf_type(t),
    ensures
        print_type(t).len() > 0,
        !is_sp_char(print_type(t)[0]),
    decreases t,
{
    match t.kind {
        TypeKindV::Base(b) => {
            lemma_base_keyword_chars(b);
        },
        TypeKindV::Arr(inner) => {
            reveal_strlit("Array<");
            assert(print_type(t)[0] == 'A');
        },
        TypeKindV::Opt(inner) => {
            reveal_strlit("Option<");
            assert(print_type(t)[0] == 'O');
        },
        TypeKindV::MapOf(k, v) => {
            reveal_strlit("Map<");
            assert(print_type(t)[0] == 'M');
        },
        TypeKindV::User(n) => {
            assert(is_id_char(n[0]));
            assert(print_type(t)[0] == n[0]);
        },
    }
}

/// A printed user type name is not read as any base-type keyword.
proof fn lemma_user_not_base(s: Seq<char>, i: int, n: Seq<char>, b: BaseType)
    requires
        0 <= i,
        i + n.len() <= s.len(),
        wf_user_name(n),
        forall|k: int| 0 <= k < n.len() ==> #[trigger] s[i + k] == n[k],
        i + n.len() == s.len() || follow_char(s[i + n.len()]),
    ensures
        !kw_at(s, i, base_keyword(b)),
{
    lemma_base_keyword_chars(b);
    let kw = base_keyword(b);
    if kw_at(s, i, kw) {
        if n.len() > kw.len() {
            assert(s[i + kw.len()] == n[kw.len() as int]);
            assert(is_id_char(n[kw.len() as int]));
            assert(false);
        } else if n.len() == kw.len() {
            assert forall|k: int| 0 <= k < n.len() implies n[k] == kw[k] by {
                assert(s[i + k] == kw[k]);
            }
            assert(n =~= kw);
            assert(false);
        } else {
            if i + n.len() == s.len() {
                assert(i + kw.len() <= s.len());
                assert(false);
            } else {
                assert(s[i + n.len()] == kw[n.len() as int]);
                assert(is_id_char(kw[n.len() as int]));
                assert(!is_id_char(s[i + n.len()]));
                assert(false);
            }
        }
    }
}

/// Inside a printed user type name, a bracketed-form keyword is never
/// continued by `<`, so the bracketed rules pass it over.
proof fn lemma_user_not_bracketed(s: Seq<char>, i: int, n: Seq<char>, w: Seq<char>)
    requires
        0 <= i,
        i + n.len() <= s.len(),
        wf_user_name(n),
        forall|k: int| 0 <= k < n.len() ==> #[trigger] s[i + k] == n[k],
        i + n.len() == s.len() || follow_char(s[i + n.len()]),
        forall|k: int| 0 <= k < w.len() ==> is_id_char(#[trigger] w[k]),
        w.len() > 0,
        has_chars(s, i, w),
    ensures
        skip_sp(s, i + w.len()) == i + w.len(),
        i + w.len() == s.len() || s[i + w.len()] != '<',
{
    if n.len() > w.len() {
        assert(s[i + w.len()] == n[w.len() as int]);
        assert(is_id_char(n[w.len() as int]));
        assert(!is_sp_char(s[i + w.len()]));
        assert(s[i + w.len()] != '<');
    } else if n.len() == w.len() {
        if i + w.len() < s.len() {
            assert(follow_char(s[i + n.len()]));
            assert(!is_sp_char(s[i + w.len()]));
            assert(s[i + w.len()] != '<');
        }
    } else {
        if i + n.len() == s.len() {
            assert(i + w.len() <= s.len());
            assert(false);
        } else {
            assert(s[i + n.len()] == w[n.len() as int]);
            assert(is_id_char(w[n.len() as int]));
            assert(follow_char(s[i + n.len()]));
            assert(false);
        }
    }
}

proof fn lemma_type_rt_base(s: Seq<char>, i: int, t: TypeV)
    requires
        0 <= i,
        wf_type(t),
        i + print_type(t).len() <= s.len(),
        s.subrange(i, i + print_type(t).len()) == print_type(t),
        i + print_type(t).len() == s.len() || follow_char(s[i + print_type(t).len()]),
        t.kind is Base,
    ensures
        parse_type(s, i) matches Option::Some((t2, j)) && j == i + print_type(t).len()
            && sim_type(t2, t),
    decreases t, 0int,
{
    let p = print_type(t);
    let ll = p.len() as int;
    assert forall|k: int| 0 <= k < ll implies #[trigger] s[i + k] == p[k] by {
        assert(s.subrange(i, i + ll)[k] == s[i + k]);
    }
    match t.kind {
        TypeKindV::Base(b) => {
            lemma_base_keyword_chars(b);
            if has_chars(s, i, kw_map()) {
                assert(s[i + 0] == kw_map()[0]);
                assert(false);
            }
            if has_chars(s, i, kw_array()) {
                assert(s[i + 0] == kw_array()[0]);
                assert(false);
            }
            if has_chars(s, i, kw_option()) {
                assert(s[i + 0] == kw_option()[0]);
                assert(false);
            }
            lemma_base_rt(s, i, b);
        },
        _ => {},
    }
}

proof fn lemma_type_rt_user(s: Seq<char>, i: int, t: TypeV)
    requires
        0 <= i,
        wf_type(t),
        i + print_type(t).len() <= s.len(),
        s.subrange(i, i + print_type(t).len()) == print_type(t),
        i + print_type(t).len() == s.len() || follow_char(s[i + print_type(t).len()]),
        t.kind is User,
    ensures
        parse_type(s, i) matches Option::Some((t2, j)) && j == i + print_type(t).len()
            && sim_type(t2, t),
    decreases t, 0int,
{
    let p = print_type(t);
    let ll = p.len() as int;
    assert forall|k: int| 0 <= k < ll implies #[trigger] s[i + k] == p[k] by {
        assert(s.subrange(i, i + ll)[k] == s[i + k]);
    }
    match t.kind {
        TypeKindV::User(n) => {
            if has_chars(s, i, kw_map()) {
                lemma_user_not_bracketed(s, i, n, kw_map());
            }
            if has_chars(s, i, kw_array()) {
                lemma_user_not_bracketed(s, i, n, kw_array());
            }
            if has_chars(s, i, kw_option()) {
                lemma_user_not_bracketed(s, i, n, kw_option());
            }
            assert(try_map_type(s, i) is None);
            assert(try_array_type(s, i) is None);
            assert(try_option_type(s, i) is None);
            lemma_user_not_base(s, i, n, BaseType::Bool);
            lemma_user_not_base(s, i, n, BaseType::Int32);
            lemma_user_not_base(s, i, n, BaseType::Int64);
            lemma_user_not_base(s, i, n, BaseType::UInt32);
            lemma_user_not_base(s, i, n, BaseType::UInt64);
            lemma_user_not_base(s, i, n, BaseType::Float32);
            lemma_user_not_base(s, i, n, BaseType::Float64);
            lemma_user_not_base(s, i, n, BaseType::Text);
            lemma_user_not_base(s, i, n, BaseType::Bytes);
            lemma_user_not_base(s, i, n, BaseType::Timestamp);
            assert(parse_base(s, i) is None);
            lemma_ident_rt(s, i, n);
        },
        _ => {},
    }
}

#[verifier::rlimit(100)]
proof fn lemma_type_rt_arr(s: Seq<char>, i: int, t: TypeV)
    requires
        0 <= i,
        wf_type(t),
        i + print_type(t).len() <= s.len(),
        s.subrange(i, i + print_type(t).len()) == print_type(t),
        i + print_type(t).len() == s.len() || follow_char(s[i + print_type(t).len()]),
        t.kind is Arr,
    ensures
        parse_type(s, i) matches Option::Some((t2, j)) && j == i + print_type(t).len()
            && sim_type(t2, t),
    decreases t, 0int,
{
    let p = print_type(t);
    let ll = p.len() as int;
    assert forall|k: int| 0 <= k < ll implies #[trigger] s[i + k] == p[k] by {
        assert(s.subrange(i, i + ll)[k] == s[i + k]);
    }
    match t.kind {
        TypeKindV::Arr(inner) => {
            reveal_strlit("Array<");
            reveal_strlit(">");
            let pi = print_type(*inner);
            let li = pi.len() as int;
            assert forall|k: int| 0 <= k < 6 implies p[k] == "Array<"@[k] by {}
            if has_chars(s, i, kw_map()) {
                assert(s[i + 0] == kw_map()[0]);
                assert(false);
            }
            assert(s.subrange(i, i + 5) =~= kw_array());
            lemma_has_chars(s, i, kw_array());
            assert(s[i + 5] == '<');
            assert(skip_sp(s, i + 5) == i + 5);
            lemma_print_type_head(*inner);
            assert(s[i + 6] == pi[0]);
            assert(skip_sp(s, i + 6) == i + 6);
            assert forall|k: int| 0 <= k < li implies p[6 + k] == pi[k] by {}
            assert(s.subrange(i + 6, i + 6 + li) =~= pi);
            assert(p[6 + li] == '>');
            lemma_type_rt(s, i + 6, *inner);
            assert(s[i + 6 + li] == '>');
            assert(skip_sp(s, i + 6 + li) == i + 6 + li);
            assert(try_array_type(s, i) matches Option::Some((tt, jj)) && jj == i + ll
                && sim_type(tt, t));
        },
        _ => {},
    }
}

#[verifier::rlimit(100)]
proof fn lemma_type_rt_opt(s: Seq<char>, i: int, t: TypeV)
    requires
        0 <= i,
        wf_type(t),
        i + print_type(t).len() <= s.len(),
        s.subrange(i, i + print_type(t).len()) == print_type(t),
        i + print_type(t).len() == s.len() || follow_char(s[i + print_type(t).len()]),
        t.kind is Opt,
    ensures
        parse_type(s, i) matches Option::Some((t2, j)) && j == i + print_type(t).len()
            && sim_type(t2, t),
    decreases t, 0int,
{
    let p = print_type(t);
    let ll = p.len() as int;
    assert forall|k: int| 0 <= k < ll implies #[trigger] s[i + k] == p[k] by {
        assert(s.subrange(i, i + ll)[k] == s[i + k]);
    }
    match t.kind {
        TypeKindV::Opt(inner) => {
            reveal_strlit("Option<");
            reveal_strlit(">");
            let pi = print_type(*inner);
            let li = pi.len() as int;
            assert forall|k: int| 0 <= k < 7 implies p[k] == "Option<"@[k] by {}
            if has_chars(s, i, kw_map()) {
                assert(s[i + 0] == kw_map()[0]);
                assert(false);
            }
            if has_chars(s, i, kw_array()) {
                assert(s[i + 0] == kw_array()[0]);
                assert(false);
            }
            assert(s.subrange(i, i + 6) =~= kw_option());
            lemma_has_chars(s, i, kw_option());
            assert(s[i + 6] == '<');
            assert(skip_sp(s, i + 6) == i + 6);
            lemma_print_type_head(*inner);
            assert(s[i + 7] == pi[0]);
            assert(skip_sp(s, i + 7) == i + 7);
            assert forall|k: int| 0 <= k < li implies p[7 + k] == pi[k] by {}
            assert(s.subrange(i + 7, i + 7 + li) =~= pi);
            assert(p[7 + li] == '>');
            lemma_type_rt(s, i + 7, *inner);
            assert(s[i + 7 + li] == '>');
            assert(skip_sp(s, i + 7 + li) == i + 7 + li);
            assert(try_option_type(s, i) matches Option::Some((tt, jj)) && jj == i + ll
                && sim_type(tt, t));
        },
        _ => {},
    }
}

#[verifier::rlimit(100)]
proof fn lemma_type_rt_map(s: Seq<char>, i: int, t: TypeV)
    requires
        0 <= i,
        wf_type(t),
        i + print_type(t).len() <= s.len(),
        s.subrange(i, i + print_type(t).len()) == print_type(t),
        i + print_type(t).len() == s.len() || follow_char(s[i + print_type(t).len()]),
        t.kind is MapOf,
    ensures
        parse_type(s, i) matches Option::Some((t2, j)) && j == i + print_type(t).len()
            && sim_type(t2, t),
    decreases t, 0int,
{
    let p = print_type(t);
    let ll = p.len() as int;
    assert forall|k: int| 0 <= k < ll implies #[trigger] s[i + k] == p[k] by {
        assert(s.subrange(i, i + ll)[k] == s[i + k]);
    }
    match t.kind {
        TypeKindV::MapOf(tk, tv) => {
            reveal_strlit("Map<");
            reveal_strlit(",");
            reveal_strlit(">");
            let pk = print_type(*tk);
            let lk = pk.len() as int;
            let pv = print_type(*tv);
            let lv = pv.len() as int;
            assert forall|k: int| 0 <= k < 4 implies p[k] == "Map<"@[k] by {}
            assert(s.subrange(i, i + 3) =~= kw_map());
            lemma_has_chars(s, i, kw_map());
            assert(s[i + 3] == '<');
            assert(skip_sp(s, i + 3) == i + 3);
            lemma_print_type_head(*tk);
            assert(s[i + 4] == pk[0]);
            assert(skip_sp(s, i + 4) == i + 4);
            assert forall|k: int| 0 <= k < lk implies p[4 + k] == pk[k] by {}
            assert(s.subrange(i + 4, i + 4 + lk) =~= pk);
            assert(p[4 + lk] == ',');
            lemma_type_rt(s, i + 4, *tk);
            assert(s[i + 4 + lk] == ',');
            assert(skip_sp(s, i + 4 + lk) == i + 4 + lk);
            lemma_print_type_head(*tv);
            assert(p[4 + lk + 1] == pv[0]);
            assert(s[i + 4 + lk + 1] == pv[0]);
            assert(skip_sp(s, i + 4 + lk + 1) == i + 4 + lk + 1);
            assert forall|k: int| 0 <= k < lv implies p[4 + lk + 1 + k] == pv[k] by {}
            assert(s.subrange(i + 4 + lk + 1, i + 4 + lk + 1 + lv) =~= pv);
            assert(p[4 + lk + 1 + lv] == '>');
            lemma_type_rt(s, i + 4 + lk + 1, *tv);
            assert(s[i + 4 + lk + 1 + lv] == '>');
            assert(skip_sp(s, i + 4 + lk + 1 + lv) == i + 4 + lk + 1 + lv);
            assert(try_map_type(s, i) matches Option::Some((tt, jj)) && jj == i + ll
                && sim_type(tt, t));
        },
        _ => {},
    }
}

/// A printed type, followed by one of the printer's follow characters,
/// parses back to a structurally equal type ending exactly at the
/// fragment's end.
pub proof fn lemma_type_rt(s: Seq<char>, i: int, t: TypeV)
    requires
        0 <= i,
        wf_type(t),
        i + print_type(t).len() <= s.len(),
        s.subrange(i, i + print_type(t).len()) == print_type(t),
        i + print_type(t).len() == s.len() || follow_char(s[i + print_type(t).len()]),
    ensures
        parse_type(s, i) matches Option::Some((t2, j)) && j == i + print_type(t).len()
            && sim_type(t2, t),
    decreases t, 1int,
{
    match t.kind {
        TypeKindV::Base(_) => lemma_type_rt_base(s, i, t),
        TypeKindV::User(_) => lemma_type_rt_user(s, i, t),
        TypeKindV::Arr(_) => lemma_type_rt_arr(s, i, t),
        TypeKindV::Opt(_) => lemma_type_rt_opt(s, i, t),
        TypeKindV::MapOf(_, _) => lemma_type_rt_map(s, i, t),
    }
}


/// A printed comment line parses back to its text, ending just past its
/// line break.
pub proof fn lemma_comment_line_rt(s: Seq<char>, i: int, l: Seq<char>)
    requires
        0 <= i,
        i + 4 + l.len() <= s.len(),
        crate::printer::wf_comment_line(l),
        s.subrange(i, i + 4 + l.len()) == "// "@ + l + "\n"@,
    ensures
        parse_comment_line(s, i) == Option::Some((l, i + 4 + l.len())),
{
    reveal_strlit("// ");
    reveal_strlit("\n");
    let p = "// "@ + l + "\n"@;
    assert forall|k: int| 0 <= k < p.len() implies #[trigger] s[i + k] == p[k] by {
        assert(s.subrange(i, i + p.len())[k] == s[i + k]);
    }
    assert(s[i + 0] == '/');
    assert(s[i + 1] == '/');
    assert(s[i + 2] == ' ');
    assert(skip_line_sp(s, i) == i);
    assert(has_chars(s, i, seq!['/', '/']));
    assert(skip_line_sp(s, i + 2) == skip_line_sp(s, i + 3));
    if l.len() > 0 {
        assert(s[i + 3] == l[0]);
        assert(skip_line_sp(s, i + 3) == i + 3);
    } else {
        assert(s[i + 3] == '\n');
        assert(skip_line_sp(s, i + 3) == i + 3);
    }
    assert forall|k: int| 0 <= k < l.len() implies #[trigger] s[i + 3 + k] != '\n' by {
        let x = 3 + k;
        assert(s[i + x] == p[x]);
        assert(p[x] == l[k]);
    }
    assert forall|k: int| 0 <= k < l.len() implies #[trigger] s[(i + 3) + k] != '\n' by {
        assert(s[(i + 3) + k] == s[i + 3 + k]);
    }
    let x0 = 3 + l.len() as int;
    assert(s[i + x0] == p[x0]);
    assert(p[x0] == '\n');
    assert(s[i + 3 + l.len()] == '\n');
    lemma_line_end_run(s, i + 3, l.len() as int);
    assert forall|k: int| 0 <= k < l.len() implies s.subrange(i + 3, i + 3 + l.len())[k] == l[k]
        by {
        let x = 3 + k;
        assert(s.subrange(i + 3, i + 3 + l.len())[k] == s[i + 3 + k]);
        assert(s[i + x] == p[x]);
        assert(p[x] == l[k]);
    }
    assert(s.subrange(i + 3, i + 3 + l.len()) =~= l);
}

/// A block of printed comment lines parses back to exactly those lines,
/// when what follows begins no further comment line.
pub proof fn lemma_comment_block_rt(s: Seq<char>, i: int, lines: Seq<Seq<char>>)
    requires
        0 <= i,
        lines.len() > 0,
        forall|k: int|
            0 <= k < lines.len() ==> crate::printer::wf_comment_line(#[trigger] lines[k]),
        i + crate::printer::print_comment_lines(lines).len() <= s.len(),
        s.subrange(i, i + crate::printer::print_comment_lines(lines).len())
            == crate::printer::print_comment_lines(lines),
        i + crate::printer::print_comment_lines(lines).len() == s.len() || (!is_line_sp_char(
            s[i + crate::printer::print_comment_lines(lines).len()],
        ) && s[i + crate::printer::print_comment_lines(lines).len()] != '/'),
    ensures
        crate::grammar::parse_comment_block(s, i) == Option::Some(
            (lines, i + crate::printer::print_comment_lines(lines).len()),
        ),
    decreases lines.len(),
{
    reveal_strlit("// ");
    reveal_strlit("\n");
    let p = crate::printer::print_comment_lines(lines);
    let e = i + p.len();
    assert forall|k: int| 0 <= k < p.len() implies #[trigger] s[i + k] == p[k] by {
        assert(s.subrange(i, i + p.len())[k] == s[i + k]);
    }
    let l0 = lines[0];
    let rest = lines.drop_first();
    let first = "// "@ + l0 + "\n"@;
    assert(p == first + crate::printer::print_comment_lines(rest));
    assert forall|k: int| 0 <= k < first.len() implies s.subrange(i, i + first.len())[k]
        == first[k] by {
        assert(s.subrange(i, i + first.len())[k] == s[i + k]);
        assert(s[i + k] == p[k]);
        assert(p[k] == first[k]);
    }
    assert(s.subrange(i, i + first.len()) =~= first);
    assert(crate::printer::wf_comment_line(lines[0]));
    lemma_comment_line_rt(s, i, l0);
    let j = i + 4 + l0.len();
    if lines.len() == 1 {
        assert(crate::printer::print_comment_lines(rest) == Seq::<char>::empty());
        assert(j == e);
        if j < s.len() {
            assert(skip_line_sp(s, j) == j);
            if has_chars(s, j, seq!['/', '/']) {
                assert(s[j + 0] == '/');
                assert(false);
            }
            assert(parse_comment_line(s, j) is None);
        } else {
            assert(parse_comment_line(s, j) is None);
        }
        assert(seq![l0] =~= lines);
    } else {
        let pr = crate::printer::print_comment_lines(rest);
        assert(j == i + first.len());
        assert(j + pr.len() == i + p.len());
        assert forall|k: int| 0 <= k < pr.len() implies s.subrange(j, j + pr.len())[k] == pr[k]
            by {
            let x = first.len() + k;
            assert(0 <= k < j + pr.len() - j);
            assert(s.subrange(j, j + pr.len())[k] == s[j + k]);
            assert(j + k == i + x);
            assert(s[i + x] == p[x]);
            assert(p[x] == pr[k]);
        }
        assert(s.subrange(j, j + pr.len()) =~= pr);
        assert forall|k: int|
            0 <= k < rest.len() implies crate::printer::wf_comment_line(
            #[trigger] rest[k],
        ) by {
            assert(rest[k] == lines[k + 1]);
        }
        lemma_comment_block_rt(s, j, rest);
        assert(seq![l0] + rest =~= lines);
    }
}

/// A comment printed directly above a declaration attaches to it: with no
/// blank line in between, the parsed prefix is exactly the printed lines,
/// and parsing resumes at the declaration itself.
pub proof fn lemma_comment_prefix_attached(s: Seq<char>, i: int, lines: Seq<Seq<char>>)
    requires
        0 <= i,
        lines.len() > 0,
        forall|k: int|
            0 <= k < lines.len() ==> crate::printer::wf_comment_line(#[trigger] lines[k]),
        i + crate::printer::print_comment_lines(lines).len() < s.len(),
        s.subrange(i, i + crate::printer::print_comment_lines(lines).len())
            == crate::printer::print_comment_lines(lines),
        is_id_char(s[i + crate::printer::print_comment_lines(lines).len()]),
    ensures
        crate::grammar::parse_comment_prefix(s, i) == (
            Option::Some(crate::ast::CommentV { lines }),
            i + crate::printer::print_comment_lines(lines).len(),
        ),
{
    reveal_strlit("// ");
    reveal_strlit("\n");
    let p = crate::printer::print_comment_lines(lines);
    let e = i + p.len();
    assert(p == ("// "@ + lines[0] + "\n"@) + crate::printer::print_comment_lines(
        lines.drop_first(),
    ));
    assert(p.len() > 0);
    assert(s.subrange(i, i + p.len())[0] == s[i + 0]);
    assert(s[i + 0] == p[0]);
    assert(p[0] == '/');
    assert(skip_sp(s, i) == i);
    lemma_comment_block_rt(s, i, lines);
    assert(skip_line_sp(s, e) == e);
    assert(s[e] != '\n');
}

/// Text that starts with anything but whitespace or a comment line has no
/// comment prefix.
pub proof fn lemma_comment_prefix_none(s: Seq<char>, i: int)
    requires
        0 <= i <= s.len(),
        i == s.len() || (!is_sp_char(s[i]) && s[i] != '/'),
    ensures
        crate::grammar::parse_comment_prefix(s, i) == (Option::None::<crate::ast::CommentV>, i),
{
    assert(skip_sp(s, i) == i);
    if i < s.len() {
        assert(skip_line_sp(s, i) == i);
        if has_chars(s, i, seq!['/', '/']) {
            assert(s[i + 0] == '/');
            assert(false);
        }
        assert(parse_comment_line(s, i) is None);
    } else {
        assert(parse_comment_line(s, i) is None);
    }
    assert(crate::grammar::parse_comment_block(s, i) is None);
}

/// A blank line after a comment block breaks attachment: the block is
/// dropped, and the prefix is whatever follows the blank line.
pub proof fn lemma_comment_prefix_detached(s: Seq<char>, i: int, lines: Seq<Seq<char>>)
    requires
        0 <= i,
        lines.len() > 0,
        forall|k: int|
            0 <= k < lines.len() ==> crate::printer::wf_comment_line(#[trigger] lines[k]),
        i + crate::printer::print_comment_lines(lines).len() < s.len(),
        s.subrange(i, i + crate::printer::print_comment_lines(lines).len())
            == crate::printer::print_comment_lines(lines),
        s[i + crate::printer::print_comment_lines(lines).len()] == '\n',
    ensures
        crate::grammar::parse_comment_prefix(s, i) == crate::grammar::parse_comment_prefix(
            s,
            i + crate::printer::print_comment_lines(lines).len() + 1,
        ),
{
    reveal_strlit("// ");
    reveal_strlit("\n");
    let p = crate::printer::print_comment_lines(lines);
    let e = i + p.len();
    assert(p == ("// "@ + lines[0] + "\n"@) + crate::printer::print_comment_lines(
        lines.drop_first(),
    ));
    assert(p.len() > 0);
    assert(s.subrange(i, i + p.len())[0] == s[i + 0]);
    assert(s[i + 0] == p[0]);
    assert(p[0] == '/');
    assert(skip_sp(s, i) == i);
    lemma_comment_block_rt(s, i, lines);
    assert(skip_line_sp(s, e) == e);
    assert(s[e] == '\n');
}

/// A comma after the last field of a list is accepted and ignored: when a
/// field is followed by a comma after which no further field begins, the
/// parsed list holds exactly the fields seen so far, and only the comma is
/// consumed; without the comma the very same fields are parsed. So a field
/// list with a trailing comma and one without parse to the same fields.
pub proof fn lemma_trailing_comma(s: Seq<char>, i: int)
    ensures
        match crate::grammar::parse_field(s, i) {
            Option::Some((f, e)) => {
                let c = skip_sp(s, e);
                &&& (c < s.len() && s[c] == ',' && i < c + 1 && crate::grammar::parse_field(
                    s,
                    c + 1,
                ) is None) ==> crate::grammar::parse_fields(s, i) == (seq![f], c + 1)
                &&& !(c < s.len() && s[c] == ',') ==> crate::grammar::parse_fields(s, i) == (
                    seq![f],
                    e,
                )
            },
            Option::None => crate::grammar::parse_fields(s, i) == (
                Seq::<crate::ast::FieldV>::empty(),
                i,
            ),
        },
{
    match crate::grammar::parse_field(s, i) {
        Option::Some((f, e)) => {
            let c = skip_sp(s, e);
            if c < s.len() && s[c] == ',' && i < c + 1 && crate::grammar::parse_field(s, c + 1)
                is None {
                assert(crate::grammar::parse_fields(s, c + 1) == (
                    Seq::<crate::ast::FieldV>::empty(),
                    c + 1,
                ));
                assert(seq![f] + Seq::<crate::ast::FieldV>::empty() =~= seq![f]);
            }
        },
        Option::None => {},
    }
}

/// Whitespace skipping lands between its start and the end of the input,
/// on a character that is not whitespace.
pub proof fn lemma_skip_sp_bounds(s: Seq<char>, i: int)
    requires
        0 <= i <= s.len(),
    ensures
        i <= skip_sp(s, i) <= s.len(),
        skip_sp(s, i) == s.len() || !is_sp_char(s[skip_sp(s, i)]),
    decreases s.len() - i,
{
    if i < s.len() && is_sp_char(s[i]) {
        lemma_skip_sp_bounds(s, i + 1);
    }
}

/// A printed field begins with a comment slash or a name character, never
/// whitespace.
pub proof fn lemma_print_field_head(f: crate::ast::FieldV)
    requires
        crate::printer::wf_field(f),
    ensures
        crate::printer::print_field(f).len() > 2,
        !is_sp_char(crate::printer::print_field(f)[0]),
{
    reveal_strlit("// ");
    reveal_strlit(": ");
    reveal_strlit(",\n");
    let pf = crate::printer::print_field(f);
    match f.comment {
        Option::Some(c) => {
            assert(crate::printer::print_comment_lines(c.lines) == ("// "@ + c.lines[0] + "\n"@)
                + crate::printer::print_comment_lines(c.lines.drop_first()));
            reveal_strlit("\n");
            assert(pf[0] == '/');
        },
        Option::None => {
            assert(crate::printer::print_comment_opt(f.comment).len() == 0);
            assert(pf[0] == f.name.text[0]);
            assert(is_id_char(pf[0]));
        },
    }
}

/// The attached-comment fact, entered from any position whose whitespace
/// run ends at the comment's start.
pub proof fn lemma_comment_prefix_attached_from(
    s: Seq<char>,
    i: int,
    start: int,
    lines: Seq<Seq<char>>,
)
    requires
        0 <= i <= s.len(),
        skip_sp(s, i) == start,
        lines.len() > 0,
        forall|k: int|
            0 <= k < lines.len() ==> crate::printer::wf_comment_line(#[trigger] lines[k]),
        start + crate::printer::print_comment_lines(lines).len() < s.len(),
        s.subrange(start, start + crate::printer::print_comment_lines(lines).len())
            == crate::printer::print_comment_lines(lines),
        is_id_char(s[start + crate::printer::print_comment_lines(lines).len()]),
    ensures
        crate::grammar::parse_comment_prefix(s, i) == (
            Option::Some(crate::ast::CommentV { lines }),
            start + crate::printer::print_comment_lines(lines).len(),
        ),
{
    let p = crate::printer::print_comment_lines(lines);
    let e = start + p.len();
    reveal_strlit("// ");
    reveal_strlit("\n");
    lemma_skip_sp_bounds(s, i);
    lemma_comment_block_rt(s, start, lines);
    assert(skip_line_sp(s, e) == e);
    assert(s[e] != '\n');
}

/// The no-comment fact, entered from any position: when the character
/// after the whitespace run is not a slash, there is no comment prefix.
pub proof fn lemma_comment_prefix_none_from(s: Seq<char>, i: int)
    requires
        0 <= i <= s.len(),
        skip_sp(s, i) == s.len() || s[skip_sp(s, i)] != '/',
    ensures
        crate::grammar::parse_comment_prefix(s, i) == (
            Option::None::<crate::ast::CommentV>,
            skip_sp(s, i),
        ),
{
    let a = skip_sp(s, i);
    lemma_skip_sp_bounds(s, i);
    if a < s.len() {
        assert(skip_line_sp(s, a) == a);
        if has_chars(s, a, seq!['/', '/']) {
            assert(s[a + 0] == '/');
            assert(false);
        }
        assert(parse_comment_line(s, a) is None);
    } else {
        assert(parse_comment_line(s, a) is None);
    }
    assert(crate::grammar::parse_comment_block(s, a) is None);
}

/// A printed field, entered from any position whose whitespace run ends at
/// its start, parses back structurally equal, ending at its own comma.
pub proof fn lemma_field_rt(s: Seq<char>, i: int, f: crate::ast::FieldV)
    requires
        0 <= i <= s.len(),
        crate::printer::wf_field(f),
        skip_sp(s, i) + crate::printer::print_field(f).len() <= s.len(),
        s.subrange(
            skip_sp(s, i),
            skip_sp(s, i) + crate::printer::print_field(f).len(),
        ) == crate::printer::print_field(f),
    ensures
        crate::grammar::parse_field(s, i) matches Option::Some((f2, e)) && sim_field(f2, f) && e
            == skip_sp(s, i) + crate::printer::print_field(f).len() - 2,
{
    reveal_strlit(": ");
    reveal_strlit(",\n");
    let a0 = skip_sp(s, i);
    lemma_skip_sp_bounds(s, i);
    let pf = crate::printer::print_field(f);
    let pc = crate::printer::print_comment_opt(f.comment);
    let pt = print_type(f.typ);
    assert forall|k: int| 0 <= k < pf.len() implies #[trigger] s[a0 + k] == pf[k] by {
        assert(s.subrange(a0, a0 + pf.len())[k] == s[a0 + k]);
    }
    let a = a0 + pc.len();
    match f.comment {
        Option::Some(c) => {
            assert forall|k: int| 0 <= k < pc.len() implies s.subrange(a0, a0 + pc.len())[k]
                == pc[k] by {
                assert(s.subrange(a0, a0 + pc.len())[k] == s[a0 + k]);
                assert(pf[k] == pc[k]);
            }
            assert(s.subrange(a0, a0 + pc.len()) =~= pc);
            assert(pf[pc.len() as int] == f.name.text[0]);
            assert(is_id_char(s[a0 + pc.len()]));
            lemma_comment_prefix_attached_from(s, i, a0, c.lines);
        },
        Option::None => {
            assert(pc.len() == 0);
            assert(pf[0] == f.name.text[0]);
            assert(s[a0 + 0] == pf[0]);
            assert(is_id_char(s[a0]));
            assert(s[a0] != '/');
            lemma_comment_prefix_none_from(s, i);
        },
    }
    let n = f.name.text.len() as int;
    assert forall|k: int| 0 <= k < n implies s.subrange(a, a + n)[k] == f.name.text[k] by {
        let x = pc.len() + k;
        assert(s.subrange(a, a + n)[k] == s[a + k]);
        assert(a + k == a0 + x);
        assert(s[a0 + x] == pf[x]);
        assert(pf[x] == f.name.text[k]);
    }
    assert(s.subrange(a, a + n) =~= f.name.text);
    let xc = pc.len() + n;
    assert(s[a0 + xc] == pf[xc]);
    assert(pf[xc] == ':');
    lemma_ident_rt(s, a, f.name.text);
    let b = a + n;
    assert(s[b] == ':');
    assert(skip_sp(s, b) == b);
    let xsp = xc + 1;
    assert(s[a0 + xsp] == pf[xsp]);
    assert(pf[xsp] == ' ');
    let d = b + 2;
    let xt = xsp + 1;
    assert forall|k: int| 0 <= k < pt.len() implies s.subrange(d, d + pt.len())[k] == pt[k] by {
        let x = xt + k;
        assert(s.subrange(d, d + pt.len())[k] == s[d + k]);
        assert(d + k == a0 + x);
        assert(s[a0 + x] == pf[x]);
        assert(pf[x] == pt[k]);
    }
    assert(s.subrange(d, d + pt.len()) =~= pt);
    let xcomma = xt + pt.len();
    assert(s[a0 + xcomma] == pf[xcomma]);
    assert(pf[xcomma] == ',');
    assert(follow_char(s[d + pt.len()]));
    assert(s[b + 1] == ' ');
    assert(skip_sp(s, b + 1) == skip_sp(s, d));
    lemma_print_type_head(f.typ);
    assert(s[d + 0] == pt[0]);
    assert(skip_sp(s, d) == d);
    lemma_type_rt(s, d, f.typ);
}

/// The character at `g` cannot begin a further field: it is neither a
/// comment slash nor an identifier character.
pub open spec fn non_field_start(s: Seq<char>, g: int) -> bool {
    g == s.len() || (s[g] != '/' && !is_id_char(s[g]))
}

/// A printed field list parses back to structurally equal fields, ending
/// just after the last field's comma, when what follows the list begins
/// neither a comment nor an identifier.
pub proof fn lemma_fields_rt(s: Seq<char>, i: int, fs: Seq<crate::ast::FieldV>)
    requires
        0 <= i <= s.len(),
        fs.len() > 0,
        crate::printer::wf_fields(fs),
        skip_sp(s, i) + crate::printer::print_fields(fs).len() <= s.len(),
        s.subrange(
            skip_sp(s, i),
            skip_sp(s, i) + crate::printer::print_fields(fs).len(),
        ) == crate::printer::print_fields(fs),
        non_field_start(s, skip_sp(s, skip_sp(s, i) + crate::printer::print_fields(fs).len())),
    ensures
        crate::grammar::parse_fields(s, i).1 == skip_sp(s, i) + crate::printer::print_fields(
            fs,
        ).len() - 1,
        sim_fields(crate::grammar::parse_fields(s, i).0, fs),
    decreases fs.len(),
{
    let start = skip_sp(s, i);
    lemma_skip_sp_bounds(s, i);
    let ff = crate::printer::print_fields(fs);
    let pf0 = crate::printer::print_field(fs[0]);
    let rest = fs.drop_first();
    let fr = crate::printer::print_fields(rest);
    assert(ff == pf0 + fr);
    assert forall|k: int| 0 <= k < ff.len() implies #[trigger] s[start + k] == ff[k] by {
        assert(s.subrange(start, start + ff.len())[k] == s[start + k]);
    }
    assert(crate::printer::wf_field(fs[0]));
    lemma_print_field_head(fs[0]);
    assert forall|k: int| 0 <= k < pf0.len() implies s.subrange(start, start + pf0.len())[k]
        == pf0[k] by {
        assert(s.subrange(start, start + pf0.len())[k] == s[start + k]);
        assert(ff[k] == pf0[k]);
    }
    assert(s.subrange(start, start + pf0.len()) =~= pf0);
    lemma_field_rt(s, i, fs[0]);
    let e = start + pf0.len() - 2;
    reveal_strlit(",\n");
    assert(pf0[pf0.len() - 2] == ',');
    assert(pf0[pf0.len() - 1] == '\n');
    assert(s[start + (pf0.len() - 2)] == ff[pf0.len() - 2]);
    assert(ff[pf0.len() - 2] == pf0[pf0.len() - 2]);
    assert(s[e] == ',');
    assert(skip_sp(s, e) == e);
    assert(s[start + (pf0.len() - 1)] == ff[pf0.len() - 1]);
    assert(s[e + 1] == '\n');
    if fs.len() == 1 {
        assert(fr == Seq::<char>::empty());
        assert(ff.len() == pf0.len());
        let ee = start + ff.len();
        assert(skip_sp(s, e + 1) == skip_sp(s, ee));
        let g = skip_sp(s, ee);
        lemma_skip_sp_bounds(s, ee);
        lemma_comment_prefix_none_from(s, e + 1);
        assert(crate::grammar::parse_comment_prefix(s, e + 1) == (
            Option::None::<crate::ast::CommentV>,
            g,
        ));
        if g < s.len() {
            assert(!is_id_char(s[g]));
            assert(id_end(s, g) == g);
        } else {
            assert(id_end(s, g) == g);
        }
        assert(crate::grammar::parse_ident(s, g) is None);
        assert(crate::grammar::parse_field(s, e + 1) is None);
        assert(crate::grammar::parse_fields(s, e + 1) == (
            Seq::<crate::ast::FieldV>::empty(),
            e + 1,
        ));
        let whole = crate::grammar::parse_fields(s, i).0;
        let f2 = crate::grammar::parse_field(s, i)->Some_0.0;
        assert(whole == seq![f2] + Seq::<crate::ast::FieldV>::empty());
        assert(whole =~= seq![f2]);
        assert forall|k: int| 0 <= k < whole.len() implies sim_field(whole[k], fs[k]) by {
            assert(whole[0] == f2);
        }
    } else {
        let start2 = start + pf0.len();
        assert(0 < rest.len());
        assert(crate::printer::wf_fields(rest)) by {
            assert forall|k: int| 0 <= k < rest.len() implies crate::printer::wf_field(
                #[trigger] rest[k],
            ) by {
                assert(rest[k] == fs[k + 1]);
            }
        }
        assert(rest[0] == fs[1]);
        lemma_print_field_head(rest[0]);
        assert(fr == crate::printer::print_field(rest[0]) + crate::printer::print_fields(
            rest.drop_first(),
        ));
        assert(fr[0] == crate::printer::print_field(rest[0])[0]);
        assert(s[start + pf0.len()] == ff[pf0.len() as int]);
        assert(ff[pf0.len() as int] == fr[0]);
        assert(!is_sp_char(s[start2]));
        assert(skip_sp(s, e + 1) == skip_sp(s, start2));
        assert(skip_sp(s, start2) == start2);
        assert(skip_sp(s, e + 1) == start2);
        assert forall|k: int| 0 <= k < fr.len() implies s.subrange(start2, start2 + fr.len())[k]
            == fr[k] by {
            let x = pf0.len() + k;
            assert(s.subrange(start2, start2 + fr.len())[k] == s[start2 + k]);
            assert(start2 + k == start + x);
            assert(s[start + x] == ff[x]);
            assert(ff[x] == fr[k]);
        }
        assert(s.subrange(start2, start2 + fr.len()) =~= fr);
        assert(start2 + fr.len() == start + ff.len());
        lemma_fields_rt(s, e + 1, rest);
        let (rest2, endr) = crate::grammar::parse_fields(s, e + 1);
        assert(endr == start + ff.len() - 1);
        let whole = crate::grammar::parse_fields(s, i).0;
        let f2 = crate::grammar::parse_field(s, i)->Some_0.0;
        assert(whole == seq![f2] + rest2);
        assert(crate::grammar::parse_fields(s, i).1 == endr);
        assert forall|k: int| 0 <= k < whole.len() implies sim_field(whole[k], fs[k]) by {
            if k == 0 {
                assert(whole[0] == f2);
            } else {
                assert(whole[k] == rest2[k - 1]);
                assert(sim_field(rest2[k - 1], rest[k - 1]));
                assert(rest[k - 1] == fs[k]);
            }
        }
    }
}

/// A printed, parenthesised field group parses back to structurally equal
/// fields, with the closing parenthesis found exactly where the printer
/// put it.
pub proof fn lemma_field_group_rt(s: Seq<char>, i: int, fs: Seq<crate::ast::FieldV>)
    requires
        0 <= i,
        crate::printer::wf_fields(fs),
        i + crate::printer::print_field_group(fs).len() <= s.len(),
        s.subrange(
            i,
            i + crate::printer::print_field_group(fs).len(),
        ) == crate::printer::print_field_group(fs),
    ensures
        sim_fields(crate::grammar::parse_fields(s, i + 1).0, fs),
        skip_sp(s, crate::grammar::parse_fields(s, i + 1).1) == i
            + crate::printer::print_field_group(fs).len() - 1,
        s[i + crate::printer::print_field_group(fs).len() - 1] == ')',
        s[i] == '(',
    decreases fs.len(),
{
    let g = crate::printer::print_field_group(fs);
    assert forall|k: int| 0 <= k < g.len() implies #[trigger] s[i + k] == g[k] by {
        assert(s.subrange(i, i + g.len())[k] == s[i + k]);
    }
    if fs.len() == 0 {
        reveal_strlit("()");
        assert(s[i + 0] == '(');
        assert(s[i + 1] == ')');
        assert(skip_sp(s, i + 1) == i + 1);
        lemma_comment_prefix_none_from(s, i + 1);
        assert(id_end(s, i + 1) == i + 1);
        assert(crate::grammar::parse_ident(s, i + 1) is None);
        assert(crate::grammar::parse_field(s, i + 1) is None);
        assert(crate::grammar::parse_fields(s, i + 1) == (
            Seq::<crate::ast::FieldV>::empty(),
            i + 1,
        ));
        assert(sim_fields(
            crate::grammar::parse_fields(s, i + 1).0,
            Seq::<crate::ast::FieldV>::empty(),
        ));
    } else {
        reveal_strlit("(\n");
        reveal_strlit(")");
        let ff = crate::printer::print_fields(fs);
        assert(g == ("(\n"@ + ff) + ")"@);
        assert(s[i + 0] == '(');
        assert(s[i + 1] == '\n');
        assert(crate::printer::wf_field(fs[0]));
        lemma_print_field_head(fs[0]);
        assert(ff == crate::printer::print_field(fs[0]) + crate::printer::print_fields(
            fs.drop_first(),
        ));
        assert(ff[0] == crate::printer::print_field(fs[0])[0]);
        assert(g[2] == ff[0]);
        assert(s[i + 2] == g[2]);
        assert(!is_sp_char(s[i + 2]));
        assert(skip_sp(s, i + 1) == skip_sp(s, i + 2));
        assert(skip_sp(s, i + 2) == i + 2);
        let start = i + 2;
        assert forall|k: int| 0 <= k < ff.len() implies s.subrange(start, start + ff.len())[k]
            == ff[k] by {
            let x = 2 + k;
            assert(s.subrange(start, start + ff.len())[k] == s[start + k]);
            assert(start + k == i + x);
            assert(s[i + x] == g[x]);
            assert(g[x] == ff[k]);
        }
        assert(s.subrange(start, start + ff.len()) =~= ff);
        let xclose: int = 2 + ff.len() as int;
        assert(s[i + xclose] == g[xclose]);
        assert(g[xclose] == ')');
        assert(skip_sp(s, start + ff.len()) == start + ff.len());
        assert(s[start + ff.len()] != '/');
        assert(!is_id_char(s[start + ff.len()]));
        lemma_fields_rt(s, i + 1, fs);
        let dd = crate::grammar::parse_fields(s, i + 1).1;
        assert(dd == start + ff.len() - 1);
        assert(s[start + (ff.len() - 1)] == ff[ff.len() - 1]);
        lemma_print_fields_last(fs);
        reveal_strlit(",\n");
        assert(ff[ff.len() - 1] == '\n');
        assert(s[dd] == '\n');
        assert(skip_sp(s, dd) == skip_sp(s, dd + 1));
        assert(skip_sp(s, dd + 1) == dd + 1);
    }
}

/// The last character of a printed non-empty field list is the last
/// field's closing line break.
proof fn lemma_print_fields_last(fs: Seq<crate::ast::FieldV>)
    requires
        fs.len() > 0,
    ensures
        crate::printer::print_fields(fs).len() > 0,
        crate::printer::print_fields(fs)[crate::printer::print_fields(fs).len() - 1] == '\n',
    decreases fs.len(),
{
    reveal_strlit(",\n");
    let ff = crate::printer::print_fields(fs);
    let pf0 = crate::printer::print_field(fs[0]);
    if fs.len() == 1 {
        assert(ff == pf0 + crate::printer::print_fields(fs.drop_first()));
        assert(crate::printer::print_fields(fs.drop_first()) == Seq::<char>::empty());
        assert(ff =~= pf0);
        assert(pf0[pf0.len() - 1] == '\n');
    } else {
        lemma_print_fields_last(fs.drop_first());
    }
}

/// Printed modifier words parse back to the same set, with the
/// notification flag clear; the keyword after them stops the scan.
pub proof fn lemma_mods_rt(s: Seq<char>, i: int, m: crate::ast::ModifierSet)
    requires
        0 <= i <= s.len(),
        skip_sp(s, i) + crate::printer::print_mods(m).len() < s.len(),
        s.subrange(
            skip_sp(s, i),
            skip_sp(s, i) + crate::printer::print_mods(m).len(),
        ) == crate::printer::print_mods(m),
        s[skip_sp(s, i) + crate::printer::print_mods(m).len()] == 'f' || s[skip_sp(s, i)
            + crate::printer::print_mods(m).len()] == 'n' || s[skip_sp(s, i)
            + crate::printer::print_mods(m).len()] == 's',
        s[skip_sp(s, i) + crate::printer::print_mods(m).len()] == 's' ==> !m.server && !m.client
            && skip_sp(s, i) + 6 < s.len() && s[skip_sp(s, i) + 1] == 't',
    ensures
        crate::grammar::parse_mods(s, i) == (
            crate::ast::ModifierSet { server: m.server, client: m.client, notification: false },
            skip_sp(s, i) + crate::printer::print_mods(m).len(),
        ),
    decreases crate::printer::print_mods(m).len(),
{
    reveal_strlit("server ");
    reveal_strlit("client ");
    let start = skip_sp(s, i);
    lemma_skip_sp_bounds(s, i);
    let pm = crate::printer::print_mods(m);
    assert forall|k: int| 0 <= k < pm.len() implies #[trigger] s[start + k] == pm[k] by {
        assert(s.subrange(start, start + pm.len())[k] == s[start + k]);
    }
    if m.server {
        assert(pm == "server "@ + (if m.client {
            "client "@
        } else {
            Seq::<char>::empty()
        }));
        assert(s[start + 0] == 's');
        assert(s[start + 1] == 'e');
        assert(s[start + 2] == 'r');
        assert(s[start + 3] == 'v');
        assert(s[start + 4] == 'e');
        assert(s[start + 5] == 'r');
        assert(has_chars(s, start, crate::grammar::kw_server()));
        assert(s[start + 6] == ' ');
        let m2 = crate::ast::ModifierSet { server: false, ..m };
        assert(skip_sp(s, start + 6) == skip_sp(s, start + 7));
        assert(crate::printer::print_mods(m2) == (if m.client {
            "client "@
        } else {
            Seq::<char>::empty()
        }));
        assert forall|k: int|
            0 <= k < crate::printer::print_mods(m2).len() implies s.subrange(
            skip_sp(s, start + 6),
            skip_sp(s, start + 6) + crate::printer::print_mods(m2).len(),
        )[k] == crate::printer::print_mods(m2)[k] by {
            let x = 7 + k;
            assert(s[start + x] == pm[x]);
            assert(skip_sp(s, start + 6) == start + 7);
            assert(s.subrange(start + 7, start + 7 + crate::printer::print_mods(m2).len())[k]
                == s[start + 7 + k]);
            assert(s[start + 7 + k] == s[start + x]);
            assert(pm[x] == crate::printer::print_mods(m2)[k]);
        }
        assert(skip_sp(s, start + 6) == start + 7) by {
            if m.client {
                assert(s[start + 7] == 'c');
            }
        }
        assert(s.subrange(start + 7, start + 7 + crate::printer::print_mods(m2).len())
            =~= crate::printer::print_mods(m2));
        lemma_mods_rt(s, start + 6, m2);
    } else if m.client {
        assert(pm == Seq::<char>::empty() + "client "@);
        assert forall|k: int| 0 <= k < 7 implies pm[k] == "client "@[k] by {}
        assert(s[start + 0] == 'c');
        assert(s[start + 1] == 'l');
        assert(s[start + 2] == 'i');
        assert(s[start + 3] == 'e');
        assert(s[start + 4] == 'n');
        assert(s[start + 5] == 't');
        if has_chars(s, start, crate::grammar::kw_server()) {
            assert(s[start + 0] == 's');
            assert(false);
        }
        assert(has_chars(s, start, crate::grammar::kw_client()));
        assert(s[start + 6] == ' ');
        let m2 = crate::ast::ModifierSet { server: false, client: false, ..m };
        assert(crate::printer::print_mods(m2) == Seq::<char>::empty());
        assert(skip_sp(s, start + 6) == skip_sp(s, start + 7));
        assert(skip_sp(s, start + 6) == start + 7) by {
            assert(s[start + 7] == s[start + pm.len()]);
            assert(!is_sp_char(s[start + 7]));
        }
        assert(s.subrange(start + 7, start + 7) =~= Seq::<char>::empty());
        lemma_mods_rt(s, start + 6, m2);
    } else {
        assert(pm.len() == 0);
        assert(!is_sp_char(s[start]));
        if has_chars(s, start, crate::grammar::kw_server()) {
            assert(s[start + 0] == 's');
            assert(s[start + 1] == 'e');
            assert(s[start + 1] == 't');
            assert(false);
        }
        if has_chars(s, start, crate::grammar::kw_client()) {
            assert(s[start + 0] == 'c');
            assert(false);
        }
    }
}

/// Where nothing that looks like a result arrow follows, there is no
/// result list.
pub proof fn lemma_results_absent(s: Seq<char>, k: int)
    requires
        0 <= k <= s.len(),
        skip_sp(s, k) == s.len() || s[skip_sp(s, k)] != '-',
    ensures
        crate::grammar::parse_results(s, k) is None,
{
    let a = skip_sp(s, k);
    lemma_skip_sp_bounds(s, k);
    if has_chars(s, a, seq!['-', '>']) {
        assert(s[a + 0] == '-');
        assert(false);
    }
}

/// A printed result list parses back to structurally equal fields.
pub proof fn lemma_results_rt(s: Seq<char>, k: int, rs: Seq<crate::ast::FieldV>)
    requires
        0 <= k,
        rs.len() > 0,
        crate::printer::wf_fields(rs),
        k + 4 + crate::printer::print_field_group(rs).len() <= s.len(),
        s.subrange(k, k + 4) == " -> "@,
        s.subrange(
            k + 4,
            k + 4 + crate::printer::print_field_group(rs).len(),
        ) == crate::printer::print_field_group(rs),
    ensures
        crate::grammar::parse_results(s, k) matches Option::Some((rs2, e)) && sim_fields(rs2, rs)
            && e == k + 4 + crate::printer::print_field_group(rs).len(),
{
    reveal_strlit(" -> ");
    assert forall|k2: int| 0 <= k2 < 4 implies #[trigger] s[k + k2] == " -> "@[k2] by {
        assert(s.subrange(k, k + 4)[k2] == s[k + k2]);
    }
    assert(s[k + 0] == ' ');
    assert(s[k + 1] == '-');
    assert(s[k + 2] == '>');
    assert(s[k + 3] == ' ');
    assert(skip_sp(s, k) == skip_sp(s, k + 1));
    assert(skip_sp(s, k + 1) == k + 1);
    assert(has_chars(s, k + 1, seq!['-', '>']));
    lemma_field_group_rt(s, k + 4, rs);
    assert(s[k + 4] == '(');
    assert(skip_sp(s, k + 3) == skip_sp(s, k + 4));
    assert(skip_sp(s, k + 4) == k + 4);
    let d = skip_sp(s, crate::grammar::parse_fields(s, k + 4 + 1).1);
    assert(s[d] == ')');
}

/// After the items of a body or module, nothing that starts an item
/// remains: the next meaningful character closes a scope or ends the
/// input.
pub open spec fn stops_items(s: Seq<char>, g: int) -> bool {
    g == s.len() || s[g] == '}'
}

/// At a scope end, no further item parses.
pub proof fn lemma_item_stops(s: Seq<char>, i: int)
    requires
        0 <= i <= s.len(),
        stops_items(s, skip_sp(s, i)),
    ensures
        crate::grammar::parse_item(s, i) is None,
        crate::grammar::skip_trailing(s, i) == skip_sp(s, i),
{
    let a = skip_sp(s, i);
    lemma_skip_sp_bounds(s, i);
    lemma_comment_prefix_none_from(s, i);
    assert(parse_comment_line(s, a) is None) by {
        if a < s.len() {
            assert(skip_line_sp(s, a) == a);
            if has_chars(s, a, seq!['/', '/']) {
                assert(s[a + 0] == '/');
                assert(false);
            }
        }
    }
    assert(crate::grammar::parse_mods(s, a) == (crate::ast::ModifierSet::spec_empty(), a)) by {
        if has_chars(s, a, crate::grammar::kw_server()) {
            assert(s[a + 0] == 's');
            assert(false);
        }
        if has_chars(s, a, crate::grammar::kw_client()) {
            assert(s[a + 0] == 'c');
            assert(false);
        }
    }
    if has_chars(s, a, crate::grammar::kw_fn()) {
        assert(s[a + 0] == 'f');
        assert(false);
    }
    if has_chars(s, a, crate::grammar::kw_nf()) {
        assert(s[a + 0] == 'n');
        assert(false);
    }
    if has_chars(s, a, crate::grammar::kw_struct()) {
        assert(s[a + 0] == 's');
        assert(false);
    }
    if has_chars(s, a, crate::grammar::kw_namespace()) {
        assert(s[a + 0] == 'n');
        assert(false);
    }
}


/// Skipping whitespace is idempotent.
pub proof fn lemma_skip_sp_idem(s: Seq<char>, i: int)
    requires
        0 <= i <= s.len(),
    ensures
        skip_sp(s, skip_sp(s, i)) == skip_sp(s, i),
{
    lemma_skip_sp_bounds(s, i);
}

/// An optional printed comment, entered from any position whose
/// whitespace run ends at its start, parses back as exactly that comment,
/// ending where the declaration begins.
pub proof fn lemma_comment_for(s: Seq<char>, i: int, c: Option<CommentV>)
    requires
        0 <= i <= s.len(),
        crate::printer::wf_comment_opt(c),
        skip_sp(s, i) + crate::printer::print_comment_opt(c).len() < s.len(),
        s.subrange(
            skip_sp(s, i),
            skip_sp(s, i) + crate::printer::print_comment_opt(c).len(),
        ) == crate::printer::print_comment_opt(c),
        is_id_char(s[skip_sp(s, i) + crate::printer::print_comment_opt(c).len()]),
    ensures
        crate::grammar::parse_comment_prefix(s, i) == (
            c,
            skip_sp(s, i) + crate::printer::print_comment_opt(c).len(),
        ),
{
    let start = skip_sp(s, i);
    lemma_skip_sp_bounds(s, i);
    match c {
        Option::Some(cc) => {
            lemma_comment_prefix_attached_from(s, i, start, cc.lines);
        },
        Option::None => {
            assert(!is_sp_char(s[start]));
            assert(s[start] != '/');
            lemma_comment_prefix_none_from(s, i);
        },
    }
}

/// What a printed item begins with: at least two characters, the first
/// neither whitespace nor anything that would read as a result arrow or
/// an opening body brace.
pub proof fn lemma_print_item_head(it: ItemV)
    requires
        crate::printer::wf_item(it),
    ensures
        crate::printer::print_item(it).len() > 1,
        !is_sp_char(crate::printer::print_item(it)[0]),
        crate::printer::print_item(it)[0] != '-',
        crate::printer::print_item(it)[0] != '{',
        crate::printer::print_item(it)[0] != '}',
{
    reveal_strlit("// ");
    reveal_strlit("\n");
    reveal_strlit("server ");
    reveal_strlit("client ");
    reveal_strlit("fn ");
    reveal_strlit("nf ");
    reveal_strlit("struct ");
    reveal_strlit("namespace ");
    let p = crate::printer::print_item(it);
    match it {
        ItemV::Function(f) => {
            let pc = crate::printer::print_comment_opt(f.comment);
            match f.comment {
                Option::Some(cc) => {
                    assert(pc == ("// "@ + cc.lines[0] + "\n"@) + crate::printer::print_comment_lines(
                        cc.lines.drop_first(),
                    ));
                    assert(p[0] == '/');
                },
                Option::None => {
                    assert(pc.len() == 0);
                    if f.modifiers.server {
                        assert(p[0] == 's');
                    } else if f.modifiers.client {
                        assert(p[0] == 'c');
                    } else if f.modifiers.notification {
                        assert(p[0] == 'n');
                    } else {
                        assert(p[0] == 'f');
                    }
                },
            }
        },
        ItemV::Struct(d) => {
            let pc = crate::printer::print_comment_opt(d.comment);
            match d.comment {
                Option::Some(cc) => {
                    assert(pc == ("// "@ + cc.lines[0] + "\n"@) + crate::printer::print_comment_lines(
                        cc.lines.drop_first(),
                    ));
                    assert(p[0] == '/');
                },
                Option::None => {
                    assert(pc.len() == 0);
                    assert(p[0] == 's');
                },
            }
        },
        ItemV::Namespace(n) => {
            let pc = crate::printer::print_comment_opt(n.comment);
            match n.comment {
                Option::Some(cc) => {
                    assert(pc == ("// "@ + cc.lines[0] + "\n"@) + crate::printer::print_comment_lines(
                        cc.lines.drop_first(),
                    ));
                    assert(p[0] == '/');
                },
                Option::None => {
                    assert(pc.len() == 0);
                    assert(p[0] == 'n');
                },
            }
        },
    }
}

/// Every printed item ends with a line break.
pub proof fn lemma_print_item_last(it: ItemV)
    ensures
        crate::printer::print_item(it).len() > 0,
        crate::printer::print_item(it)[crate::printer::print_item(it).len() - 1] == '\n',
{
    reveal_strlit("\n");
    reveal_strlit("}\n");
    let p = crate::printer::print_item(it);
    match it {
        ItemV::Function(f) => {
            assert(p[p.len() - 1] == '\n');
        },
        ItemV::Struct(d) => {
            assert(p == (crate::printer::print_comment_opt(d.comment) + "struct "@
                + d.name.text + " {\n"@ + crate::printer::print_fields(d.fields)) + "}\n"@);
            assert(p[p.len() - 1] == '\n');
        },
        ItemV::Namespace(n) => {
            assert(p == (crate::printer::print_comment_opt(n.comment) + "namespace "@
                + n.name.text + " {\n"@ + crate::printer::print_items(n.body.items)) + "}\n"@);
            assert(p[p.len() - 1] == '\n');
        },
    }
}

/// A printed struct declaration, entered from any position whose
/// whitespace run ends at its start, parses back structurally equal,
/// ending at its final line break.
#[verifier::rlimit(100)]
pub proof fn lemma_struct_rt(s: Seq<char>, i: int, d: crate::ast::StructV)
    requires
        0 <= i <= s.len(),
        crate::printer::wf_struct(d),
        skip_sp(s, i) + crate::printer::print_struct(d).len() <= s.len(),
        s.subrange(
            skip_sp(s, i),
            skip_sp(s, i) + crate::printer::print_struct(d).len(),
        ) == crate::printer::print_struct(d),
    ensures
        crate::grammar::parse_item(s, i) matches Option::Some((it2, e)) && it2 is Struct
            && crate::ast::sim_struct(it2->Struct_0, d) && e == skip_sp(s, i)
            + crate::printer::print_struct(d).len() - 1,
{
    reveal_strlit("struct ");
    reveal_strlit(" {\n");
    reveal_strlit("}\n");
    let start = skip_sp(s, i);
    lemma_skip_sp_bounds(s, i);
    let p = crate::printer::print_struct(d);
    let pc = crate::printer::print_comment_opt(d.comment);
    let pcl = pc.len() as int;
    let n = d.name.text.len() as int;
    let ff = crate::printer::print_fields(d.fields);
    assert forall|k: int| 0 <= k < p.len() implies #[trigger] s[start + k] == p[k] by {
        assert(s.subrange(start, start + p.len())[k] == s[start + k]);
    }
    let a = start + pcl;
    assert forall|k: int| 0 <= k < pc.len() implies s.subrange(start, start + pc.len())[k]
        == pc[k] by {
        assert(s.subrange(start, start + pc.len())[k] == s[start + k]);
        assert(p[k] == pc[k]);
    }
    assert(s.subrange(start, start + pc.len()) =~= pc);
    assert forall|k: int| 0 <= k < 7 implies #[trigger] s[a + k] == "struct "@[k] by {
        let x = pcl + k;
        assert(a + k == start + x);
        assert(s[start + x] == p[x]);
        assert(p[x] == "struct "@[k]);
    }
    assert(s[a + 0] == 's');
    assert(is_id_char(s[start + pcl]));
    lemma_comment_for(s, i, d.comment);
    assert(s[a + 1] == 't');
    assert(s[a + 6] == ' ');
    assert(skip_sp(s, a) == a);
    assert(s.subrange(a, a) =~= crate::printer::print_mods(
        crate::ast::ModifierSet::spec_empty(),
    ));
    lemma_mods_rt(s, a, crate::ast::ModifierSet::spec_empty());
    assert(crate::grammar::parse_mods(s, a) == (crate::ast::ModifierSet::spec_empty(), a));
    if has_chars(s, a, crate::grammar::kw_fn()) {
        assert(s[a + 0] == 'f');
        assert(false);
    }
    if has_chars(s, a, crate::grammar::kw_nf()) {
        assert(s[a + 0] == 'n');
        assert(false);
    }
    assert(has_chars(s, a, crate::grammar::kw_struct()));
    let dd = a + 7;
    assert(skip_sp(s, a + 6) == skip_sp(s, dd));
    let xn = pcl + 7;
    assert forall|k: int| 0 <= k < n implies s.subrange(dd, dd + n)[k] == d.name.text[k] by {
        let x = xn + k;
        assert(s.subrange(dd, dd + n)[k] == s[dd + k]);
        assert(dd + k == start + x);
        assert(s[start + x] == p[x]);
        assert(p[x] == d.name.text[k]);
    }
    assert(s.subrange(dd, dd + n) =~= d.name.text);
    assert(is_id_char(d.name.text[0]));
    assert(s[dd + 0] == d.name.text[0]);
    assert(skip_sp(s, dd) == dd);
    let xsp = xn + n;
    assert(s[start + xsp] == p[xsp]);
    assert(p[xsp] == ' ');
    assert(s[start + (xsp + 1)] == p[xsp + 1]);
    assert(p[xsp + 1] == '{');
    assert(s[start + (xsp + 2)] == p[xsp + 2]);
    assert(p[xsp + 2] == '\n');
    lemma_ident_rt(s, dd, d.name.text);
    let e1 = dd + n;
    assert(s[e1] == ' ');
    assert(s[e1 + 1] == '{');
    assert(skip_sp(s, e1) == skip_sp(s, e1 + 1));
    assert(skip_sp(s, e1 + 1) == e1 + 1);
    let f = e1 + 1;
    let xff = xsp + 3;
    let xclose = xff + ff.len() as int;
    assert(s[start + xclose] == p[xclose]);
    assert(p[xclose] == '}');
    if d.fields.len() == 0 {
        assert(ff.len() == 0);
        assert(f + 2 == start + xclose);
        assert(s[f + 2] == '}');
        assert(skip_sp(s, f + 1) == skip_sp(s, f + 2));
        assert(skip_sp(s, f + 2) == f + 2);
        lemma_comment_prefix_none_from(s, f + 1);
        assert(id_end(s, f + 2) == f + 2);
        assert(crate::grammar::parse_ident(s, f + 2) is None);
        assert(crate::grammar::parse_field(s, f + 1) is None);
        assert(crate::grammar::parse_fields(s, f + 1) == (
            Seq::<crate::ast::FieldV>::empty(),
            f + 1,
        ));
        assert(sim_fields(Seq::<crate::ast::FieldV>::empty(), d.fields));
    } else {
        assert(crate::printer::wf_field(d.fields[0]));
        lemma_print_field_head(d.fields[0]);
        assert(ff == crate::printer::print_field(d.fields[0]) + crate::printer::print_fields(
            d.fields.drop_first(),
        ));
        assert(ff[0] == crate::printer::print_field(d.fields[0])[0]);
        assert(p[xff] == ff[0]);
        assert(s[start + xff] == p[xff]);
        assert(f + 2 == start + xff);
        assert(!is_sp_char(s[f + 2]));
        assert(skip_sp(s, f + 1) == skip_sp(s, f + 2));
        assert(skip_sp(s, f + 2) == f + 2);
        let w = f + 2;
        assert forall|k: int| 0 <= k < ff.len() implies s.subrange(w, w + ff.len())[k] == ff[k]
            by {
            let x = xff + k;
            assert(s.subrange(w, w + ff.len())[k] == s[w + k]);
            assert(w + k == start + x);
            assert(s[start + x] == p[x]);
            assert(p[x] == ff[k]);
        }
        assert(s.subrange(w, w + ff.len()) =~= ff);
        assert(w + ff.len() == start + xclose);
        assert(skip_sp(s, w + ff.len()) == w + ff.len());
        assert(s[w + ff.len()] != '/');
        assert(!is_id_char(s[w + ff.len()]));
        lemma_fields_rt(s, f + 1, d.fields);
        let fend = crate::grammar::parse_fields(s, f + 1).1;
        assert(fend == w + ff.len() - 1);
        lemma_print_fields_last(d.fields);
        assert(s[w + (ff.len() - 1)] == ff[ff.len() - 1]);
        assert(s[fend] == '\n');
        assert(skip_sp(s, fend) == skip_sp(s, fend + 1));
        assert(skip_sp(s, fend + 1) == fend + 1);
        assert(s[fend + 1] == '}');
    }
}

/// What the parser must not meet right after a printed declaration: a
/// result arrow or an opening body brace, which would change how the
/// declaration is read.
pub open spec fn no_decl_continue(s: Seq<char>, g: int) -> bool {
    g == s.len() || (s[g] != '-' && s[g] != '{')
}

/// The shared head of a printed function or notification declaration:
/// its comment, modifier words, keyword, name and parameter group all
/// parse back as printed. Positions are stated from the printed
/// component lengths.
#[verifier::rlimit(100)]
proof fn lemma_fn_header(s: Seq<char>, i: int, f: crate::ast::FunctionV)
    requires
        0 <= i <= s.len(),
        crate::printer::wf_function(f),
        skip_sp(s, i) + crate::printer::print_function(f).len() <= s.len(),
        s.subrange(
            skip_sp(s, i),
            skip_sp(s, i) + crate::printer::print_function(f).len(),
        ) == crate::printer::print_function(f),
    ensures
        ({
            let start = skip_sp(s, i);
            let pcl = crate::printer::print_comment_opt(f.comment).len() as int;
            let pml = crate::printer::print_mods(f.modifiers).len() as int;
            let b = start + pcl + pml;
            let dd = b + 3;
            let e1 = dd + f.name.text.len() as int;
            let ggl = crate::printer::print_field_group(f.params).len() as int;
            let h = e1 + ggl - 1;
            &&& crate::grammar::parse_comment_prefix(s, i) == (f.comment, start + pcl)
            &&& crate::grammar::parse_mods(s, start + pcl) == (
                crate::ast::ModifierSet {
                    server: f.modifiers.server,
                    client: f.modifiers.client,
                    notification: false,
                },
                b,
            )
            &&& f.modifiers.notification ==> !has_chars(s, b, crate::grammar::kw_fn())
                && has_chars(s, b, crate::grammar::kw_nf())
            &&& !f.modifiers.notification ==> has_chars(s, b, crate::grammar::kw_fn())
            &&& skip_sp(s, b + 2) == dd
            &&& crate::grammar::parse_ident(s, dd) == Option::Some(
                (IdentV { pos: dd, text: f.name.text }, e1),
            )
            &&& skip_sp(s, e1) == e1
            &&& e1 < s.len() && s[e1] == '('
            &&& sim_fields(crate::grammar::parse_fields(s, e1 + 1).0, f.params)
            &&& skip_sp(s, crate::grammar::parse_fields(s, e1 + 1).1) == h
            &&& h < s.len() && s[h] == ')'
            &&& forall|k: int|
                0 <= k < crate::printer::print_function(f).len() ==> #[trigger] s[start + k]
                    == crate::printer::print_function(f)[k]
        }),
    decreases f, 0int,
{
    reveal_strlit("fn ");
    reveal_strlit("nf ");
    let start = skip_sp(s, i);
    lemma_skip_sp_bounds(s, i);
    let p = crate::printer::print_function(f);
    let pc = crate::printer::print_comment_opt(f.comment);
    let pcl = pc.len() as int;
    let pm = crate::printer::print_mods(f.modifiers);
    let pml = pm.len() as int;
    let n = f.name.text.len() as int;
    let gg = crate::printer::print_field_group(f.params);
    let ggl = gg.len() as int;
    assert forall|k: int| 0 <= k < p.len() implies #[trigger] s[start + k] == p[k] by {
        assert(s.subrange(start, start + p.len())[k] == s[start + k]);
    }
    let a = start + pcl;
    assert forall|k: int| 0 <= k < pc.len() implies s.subrange(start, start + pc.len())[k]
        == pc[k] by {
        assert(s.subrange(start, start + pc.len())[k] == s[start + k]);
        assert(p[k] == pc[k]);
    }
    assert(s.subrange(start, start + pc.len()) =~= pc);
    let kw = if f.modifiers.notification {
        "nf "@
    } else {
        "fn "@
    };
    assert forall|k: int| 0 <= k < pml + 3 implies #[trigger] s[a + k] == (pm + kw)[k] by {
        let x = pcl + k;
        assert(a + k == start + x);
        assert(s[start + x] == p[x]);
        assert(p[x] == (pm + kw)[k]);
    }
    assert(is_id_char(s[start + pcl])) by {
        reveal_strlit("server ");
        reveal_strlit("client ");
        if f.modifiers.server {
            assert(s[a + 0] == 's');
        } else if f.modifiers.client {
            assert(s[a + 0] == 'c');
        } else if f.modifiers.notification {
            assert(s[a + 0] == 'n');
        } else {
            assert(s[a + 0] == 'f');
        }
    }
    lemma_comment_for(s, i, f.comment);
    let b = a + pml;
    assert(s[a + (pml + 0)] == (pm + kw)[pml + 0]);
    assert(s[a + (pml + 1)] == (pm + kw)[pml + 1]);
    assert(s[a + (pml + 2)] == (pm + kw)[pml + 2]);
    assert(s[b + 0] == kw[0]);
    assert(s[b + 1] == kw[1]);
    assert(s[b + 2] == ' ');
    assert(skip_sp(s, a) == a);
    assert forall|k: int| 0 <= k < pm.len() implies s.subrange(a, a + pm.len())[k] == pm[k] by {
        assert(s.subrange(a, a + pm.len())[k] == s[a + k]);
    }
    assert(s.subrange(a, a + pm.len()) =~= pm);
    lemma_mods_rt(s, a, f.modifiers);
    if f.modifiers.notification {
        if has_chars(s, b, crate::grammar::kw_fn()) {
            assert(s[b + 0] == 'f');
            assert(false);
        }
        assert(has_chars(s, b, crate::grammar::kw_nf()));
    } else {
        assert(has_chars(s, b, crate::grammar::kw_fn()));
    }
    let dd = b + 3;
    assert(skip_sp(s, b + 2) == skip_sp(s, dd));
    let xn = pcl + pml + 3;
    assert forall|k: int| 0 <= k < n implies s.subrange(dd, dd + n)[k] == f.name.text[k] by {
        let x = xn + k;
        assert(s.subrange(dd, dd + n)[k] == s[dd + k]);
        assert(dd + k == start + x);
        assert(s[start + x] == p[x]);
        assert(p[x] == f.name.text[k]);
    }
    assert(s.subrange(dd, dd + n) =~= f.name.text);
    assert(is_id_char(f.name.text[0]));
    assert(s[dd + 0] == f.name.text[0]);
    assert(skip_sp(s, dd) == dd);
    let xg = xn + n;
    let e1 = dd + n;
    assert forall|k: int| 0 <= k < ggl implies s.subrange(e1, e1 + ggl)[k] == gg[k] by {
        let x = xg + k;
        assert(s.subrange(e1, e1 + ggl)[k] == s[e1 + k]);
        assert(e1 + k == start + x);
        assert(s[start + x] == p[x]);
        assert(p[x] == gg[k]);
    }
    assert(s.subrange(e1, e1 + ggl) =~= gg);
    lemma_field_group_rt(s, e1, f.params);
    assert(s[e1] == '(');
    lemma_ident_rt(s, dd, f.name.text);
    assert(skip_sp(s, e1) == e1);
}

/// The braced body of a printed function: after the opening brace, the
/// printed items parse back and the closing brace is found exactly where
/// the printer put it.
#[verifier::rlimit(100)]
proof fn lemma_fn_body_part(s: Seq<char>, kpos: int, body: crate::ast::BodyV)
    requires
        0 <= kpos,
        kpos + 3 + crate::printer::print_items(body.items).len() < s.len(),
        s[kpos] == ' ',
        s[kpos + 1] == '{',
        s[kpos + 2] == '\n',
        crate::printer::wf_items(body.items),
        s.subrange(
            kpos + 3,
            kpos + 3 + crate::printer::print_items(body.items).len(),
        ) == crate::printer::print_items(body.items),
        s[kpos + 3 + crate::printer::print_items(body.items).len()] == '}',
    ensures
        skip_sp(s, kpos) == kpos + 1,
        crate::grammar::parse_items(s, kpos + 2).0.len() == body.items.len(),
        forall|k: int|
            0 <= k < body.items.len() ==> crate::ast::sim_item(
                #[trigger] crate::grammar::parse_items(s, kpos + 2).0[k],
                body.items[k],
            ),
        crate::grammar::skip_trailing(s, crate::grammar::parse_items(s, kpos + 2).1) == kpos + 3
            + crate::printer::print_items(body.items).len(),
    decreases body, 9int,
{
    let pi = crate::printer::print_items(body.items);
    let pil = pi.len() as int;
    assert(skip_sp(s, kpos) == skip_sp(s, kpos + 1));
    assert(skip_sp(s, kpos + 1) == kpos + 1);
    let w = skip_sp(s, kpos + 2);
    if body.items.len() == 0 {
        assert(pil == 0);
        assert(skip_sp(s, kpos + 2) == skip_sp(s, kpos + 3));
        assert(skip_sp(s, kpos + 3) == kpos + 3);
        assert(w == kpos + 3);
    } else {
        lemma_print_item_head(body.items[0]);
        assert(pi == crate::printer::print_item(body.items[0]) + crate::printer::print_items(
            body.items.drop_first(),
        ));
        assert(pi[0] == crate::printer::print_item(body.items[0])[0]);
        assert(s.subrange(kpos + 3, kpos + 3 + pil)[0] == s[kpos + 3]);
        assert(s[kpos + 3] == pi[0]);
        assert(skip_sp(s, kpos + 2) == skip_sp(s, kpos + 3));
        assert(skip_sp(s, kpos + 3) == kpos + 3);
        assert(w == kpos + 3);
    }
    assert(s.subrange(w, w + pil) =~= pi);
    assert(skip_sp(s, w + pil) == w + pil);
    assert(stops_items(s, skip_sp(s, w + pil)));
    lemma_items_rt(s, kpos + 2, body.items);
}

/// A printed function or notification declaration, entered from any
/// position whose whitespace run ends at its start, parses back
/// structurally equal, ending at its final line break. What follows must
/// not read as a result arrow or a body brace.
#[verifier::rlimit(100)]
pub proof fn lemma_fn_rt(s: Seq<char>, i: int, f: crate::ast::FunctionV)
    requires
        0 <= i <= s.len(),
        crate::printer::wf_function(f),
        skip_sp(s, i) + crate::printer::print_function(f).len() <= s.len(),
        s.subrange(
            skip_sp(s, i),
            skip_sp(s, i) + crate::printer::print_function(f).len(),
        ) == crate::printer::print_function(f),
        no_decl_continue(
            s,
            skip_sp(s, skip_sp(s, i) + crate::printer::print_function(f).len() - 1),
        ),
    ensures
        crate::grammar::parse_item(s, i) matches Option::Some((it2, e)) && it2 is Function
            && crate::ast::sim_function(it2->Function_0, f) && e == skip_sp(s, i)
            + crate::printer::print_function(f).len() - 1,
    decreases f, 1int,
{
    reveal_strlit(" -> ");
    reveal_strlit(" {\n");
    reveal_strlit("\n");
    reveal_strlit("fn ");
    reveal_strlit("nf ");
    reveal_strlit("}");
    lemma_fn_header(s, i, f);
    let start = skip_sp(s, i);
    lemma_skip_sp_bounds(s, i);
    let p = crate::printer::print_function(f);
    let pcl = crate::printer::print_comment_opt(f.comment).len() as int;
    let pml = crate::printer::print_mods(f.modifiers).len() as int;
    let n = f.name.text.len() as int;
    let ggl = crate::printer::print_field_group(f.params).len() as int;
    let rr = if f.results.len() == 0 {
        Seq::<char>::empty()
    } else {
        " -> "@ + crate::printer::print_field_group(f.results)
    };
    let rrl = rr.len() as int;
    let bb = match f.body {
        Option::Some(body) => " {\n"@ + crate::printer::print_items(body.items) + "}"@,
        Option::None => Seq::<char>::empty(),
    };
    let bbl = bb.len() as int;
    assert(p.len() == pcl + pml + 3 + n + ggl + rrl + bbl + 1);
    let b = start + pcl + pml;
    let dd = b + 3;
    let e1 = dd + n;
    let h = e1 + ggl - 1;
    let xr = pcl + pml + 3 + n + ggl;
    let kpos = e1 + ggl + rrl;
    let xb = xr + rrl;
    if f.results.len() > 0 {
        assert forall|k: int| 0 <= k < 4 implies s.subrange(h + 1, h + 5)[k] == " -> "@[k] by {
            let x = xr + k;
            assert(s.subrange(h + 1, h + 5)[k] == s[h + 1 + k]);
            assert(h + 1 + k == start + x);
            assert(s[start + x] == p[x]);
            assert(p[x] == " -> "@[k]);
        }
        assert(s.subrange(h + 1, h + 5) =~= " -> "@);
        let g2 = crate::printer::print_field_group(f.results);
        assert forall|k: int| 0 <= k < g2.len() implies s.subrange(h + 5, h + 5 + g2.len())[k]
            == g2[k] by {
            let x = xr + 4 + k;
            assert(s.subrange(h + 5, h + 5 + g2.len())[k] == s[h + 5 + k]);
            assert(h + 5 + k == start + x);
            assert(s[start + x] == p[x]);
            assert(p[x] == g2[k]);
        }
        assert(s.subrange(h + 5, h + 5 + g2.len()) =~= g2);
        lemma_results_rt(s, h + 1, f.results);
    }
    if f.modifiers.notification {
        assert(f.results.len() == 0);
        assert(f.body is None);
        assert(kpos == start + (p.len() - 1));
        assert(s[start + (p.len() - 1)] == p[p.len() - 1]);
        assert(p[p.len() - 1] == '\n');
        assert(s[kpos] == '\n');
        assert(skip_sp(s, kpos) == skip_sp(s, kpos + 1));
        lemma_results_absent(s, h + 1);
        assert(crate::ast::ModifierSet {
            notification: true,
            ..crate::grammar::parse_mods(s, start + pcl).0
        } == f.modifiers);
    } else {
        match f.body {
            Option::None => {
                assert(kpos == start + (p.len() - 1));
                assert(s[start + (p.len() - 1)] == p[p.len() - 1]);
                assert(p[p.len() - 1] == '\n');
                assert(s[kpos] == '\n');
                assert(skip_sp(s, kpos) == skip_sp(s, kpos + 1));
                if f.results.len() == 0 {
                    lemma_results_absent(s, h + 1);
                }
                assert(no_decl_continue(s, skip_sp(s, kpos)));
            },
            Option::Some(body) => {
                let pi = crate::printer::print_items(body.items);
                let pil = pi.len() as int;
                assert(s[start + xb] == p[xb]);
                assert(p[xb] == ' ');
                assert(s[kpos] == ' ');
                assert(s[start + (xb + 1)] == p[xb + 1]);
                assert(p[xb + 1] == '{');
                assert(s[kpos + 1] == '{');
                assert(s[start + (xb + 2)] == p[xb + 2]);
                assert(p[xb + 2] == '\n');
                assert(s[kpos + 2] == '\n');
                if f.results.len() == 0 {
                    assert(skip_sp(s, h + 1) == skip_sp(s, kpos + 1));
                    assert(skip_sp(s, kpos + 1) == kpos + 1);
                    assert(s[kpos + 1] != '-');
                    lemma_results_absent(s, h + 1);
                }
                assert forall|k: int| 0 <= k < pil implies s.subrange(
                    kpos + 3,
                    kpos + 3 + pil,
                )[k] == pi[k] by {
                    let x = xb + 3 + k;
                    assert(s.subrange(kpos + 3, kpos + 3 + pil)[k] == s[kpos + 3 + k]);
                    assert(kpos + 3 + k == start + x);
                    assert(s[start + x] == p[x]);
                    assert(p[x] == pi[k]);
                }
                assert(s.subrange(kpos + 3, kpos + 3 + pil) =~= pi);
                let tpos = kpos + 3 + pil;
                assert(tpos == start + (p.len() - 2));
                assert(s[start + (p.len() - 2)] == p[p.len() - 2]);
                assert(p[p.len() - 2] == '}');
                assert(s[tpos] == '}');
                lemma_fn_body_part(s, kpos, body);
                let jj = crate::grammar::parse_items(s, kpos + 2).1;
                assert(crate::grammar::skip_trailing(s, jj) == tpos);
            },
        }
        assert(crate::grammar::parse_mods(s, start + pcl).0 == f.modifiers);
    }
}

/// A printed namespace declaration, entered from any position whose
/// whitespace run ends at its start, parses back structurally equal,
/// ending at its final line break.
#[verifier::rlimit(100)]
pub proof fn lemma_ns_rt(s: Seq<char>, i: int, nsd: crate::ast::NamespaceV)
    requires
        0 <= i <= s.len(),
        crate::printer::wf_namespace(nsd),
        skip_sp(s, i) + crate::printer::print_namespace(nsd).len() <= s.len(),
        s.subrange(
            skip_sp(s, i),
            skip_sp(s, i) + crate::printer::print_namespace(nsd).len(),
        ) == crate::printer::print_namespace(nsd),
    ensures
        crate::grammar::parse_item(s, i) matches Option::Some((it2, e)) && it2 is Namespace
            && crate::ast::sim_namespace(it2->Namespace_0, nsd) && e == skip_sp(s, i)
            + crate::printer::print_namespace(nsd).len() - 1,
    decreases nsd, 1int,
{
    reveal_strlit("namespace ");
    reveal_strlit(" {\n");
    reveal_strlit("}\n");
    let start = skip_sp(s, i);
    lemma_skip_sp_bounds(s, i);
    let p = crate::printer::print_namespace(nsd);
    let pc = crate::printer::print_comment_opt(nsd.comment);
    let pcl = pc.len() as int;
    let n = nsd.name.text.len() as int;
    let pi = crate::printer::print_items(nsd.body.items);
    let pil = pi.len() as int;
    assert forall|k: int| 0 <= k < p.len() implies #[trigger] s[start + k] == p[k] by {
        assert(s.subrange(start, start + p.len())[k] == s[start + k]);
    }
    let a = start + pcl;
    assert forall|k: int| 0 <= k < pc.len() implies s.subrange(start, start + pc.len())[k]
        == pc[k] by {
        assert(s.subrange(start, start + pc.len())[k] == s[start + k]);
        assert(p[k] == pc[k]);
    }
    assert(s.subrange(start, start + pc.len()) =~= pc);
    assert forall|k: int| 0 <= k < 10 implies #[trigger] s[a + k] == "namespace "@[k] by {
        let x = pcl + k;
        assert(a + k == start + x);
        assert(s[start + x] == p[x]);
        assert(p[x] == "namespace "@[k]);
    }
    assert(s[a + 0] == 'n');
    assert(is_id_char(s[start + pcl]));
    lemma_comment_for(s, i, nsd.comment);
    assert(s[a + 1] == 'a');
    assert(s[a + 9] == ' ');
    assert(skip_sp(s, a) == a);
    assert(s.subrange(a, a) =~= crate::printer::print_mods(
        crate::ast::ModifierSet::spec_empty(),
    ));
    lemma_mods_rt(s, a, crate::ast::ModifierSet::spec_empty());
    if has_chars(s, a, crate::grammar::kw_fn()) {
        assert(s[a + 0] == 'f');
        assert(false);
    }
    if has_chars(s, a, crate::grammar::kw_nf()) {
        assert(s[a + 1] == 'f');
        assert(false);
    }
    if has_chars(s, a, crate::grammar::kw_struct()) {
        assert(s[a + 0] == 's');
        assert(false);
    }
    assert(has_chars(s, a, crate::grammar::kw_namespace()));
    let dd = a + 10;
    assert(skip_sp(s, a + 9) == skip_sp(s, dd));
    let xn = pcl + 10;
    assert forall|k: int| 0 <= k < n implies s.subrange(dd, dd + n)[k] == nsd.name.text[k] by {
        let x = xn + k;
        assert(s.subrange(dd, dd + n)[k] == s[dd + k]);
        assert(dd + k == start + x);
        assert(s[start + x] == p[x]);
        assert(p[x] == nsd.name.text[k]);
    }
    assert(s.subrange(dd, dd + n) =~= nsd.name.text);
    assert(is_id_char(nsd.name.text[0]));
    assert(s[dd + 0] == nsd.name.text[0]);
    assert(skip_sp(s, dd) == dd);
    let e1 = dd + n;
    let xsp = xn + n;
    assert(s[start + xsp] == p[xsp]);
    assert(p[xsp] == ' ');
    assert(s[start + (xsp + 1)] == p[xsp + 1]);
    assert(p[xsp + 1] == '{');
    assert(s[start + (xsp + 2)] == p[xsp + 2]);
    assert(p[xsp + 2] == '\n');
    assert(s[e1] == ' ');
    lemma_ident_rt(s, dd, nsd.name.text);
    assert(s[e1 + 1] == '{');
    assert(s[e1 + 2] == '\n');
    assert(skip_sp(s, e1) == skip_sp(s, e1 + 1));
    assert(skip_sp(s, e1 + 1) == e1 + 1);
    let fpos = e1 + 1;
    let xff = xsp + 3;
    assert forall|k: int| 0 <= k < pil implies s.subrange(fpos + 2, fpos + 2 + pil)[k] == pi[k]
        by {
        let x = xff + k;
        assert(s.subrange(fpos + 2, fpos + 2 + pil)[k] == s[fpos + 2 + k]);
        assert(fpos + 2 + k == start + x);
        assert(s[start + x] == p[x]);
        assert(p[x] == pi[k]);
    }
    let tpos = fpos + 2 + pil;
    assert(s[start + (xff + pil)] == p[xff + pil]);
    assert(p[xff + pil] == '}');
    assert(s[tpos] == '}');
    assert(tpos == start + p.len() - 2);
    let w = skip_sp(s, fpos + 1);
    if nsd.body.items.len() == 0 {
        assert(pil == 0);
        assert(skip_sp(s, fpos + 1) == skip_sp(s, fpos + 2));
        assert(skip_sp(s, fpos + 2) == fpos + 2);
        assert(w == fpos + 2);
    } else {
        lemma_print_item_head(nsd.body.items[0]);
        assert(pi == crate::printer::print_item(nsd.body.items[0])
            + crate::printer::print_items(nsd.body.items.drop_first()));
        assert(pi[0] == crate::printer::print_item(nsd.body.items[0])[0]);
        assert(s[fpos + 2] == pi[0]);
        assert(skip_sp(s, fpos + 1) == skip_sp(s, fpos + 2));
        assert(skip_sp(s, fpos + 2) == fpos + 2);
        assert(w == fpos + 2);
    }
    assert(s.subrange(w, w + pil) =~= pi);
    assert(skip_sp(s, w + pil) == w + pil);
    assert(stops_items(s, skip_sp(s, w + pil)));
    lemma_items_rt(s, fpos + 1, nsd.body.items);
    let jj = crate::grammar::parse_items(s, fpos + 1).1;
    assert(crate::grammar::skip_trailing(s, jj) == tpos);
}

/// A printed item of any kind, entered from any position whose whitespace
/// run ends at its start, parses back structurally equal, ending at its
/// final line break.
pub proof fn lemma_item_rt(s: Seq<char>, i: int, it: ItemV)
    requires
        0 <= i <= s.len(),
        crate::printer::wf_item(it),
        skip_sp(s, i) + crate::printer::print_item(it).len() <= s.len(),
        s.subrange(
            skip_sp(s, i),
            skip_sp(s, i) + crate::printer::print_item(it).len(),
        ) == crate::printer::print_item(it),
        no_decl_continue(
            s,
            skip_sp(s, skip_sp(s, i) + crate::printer::print_item(it).len() - 1),
        ),
    ensures
        crate::grammar::parse_item(s, i) matches Option::Some((it2, e)) && crate::ast::sim_item(
            it2,
            it,
        ) && e == skip_sp(s, i) + crate::printer::print_item(it).len() - 1,
    decreases it, 2int,
{
    match it {
        ItemV::Function(f) => {
            lemma_fn_rt(s, i, f);
        },
        ItemV::Struct(d) => {
            lemma_struct_rt(s, i, d);
        },
        ItemV::Namespace(n) => {
            lemma_ns_rt(s, i, n);
        },
    }
}

/// A printed item list, entered from any position whose whitespace run
/// ends at its start, parses back to structurally equal items, with the
/// scan for trailing comments landing exactly where the printed list
/// ends.
#[verifier::rlimit(100)]
pub proof fn lemma_items_rt(s: Seq<char>, i: int, items: Seq<ItemV>)
    requires
        0 <= i <= s.len(),
        crate::printer::wf_items(items),
        skip_sp(s, i) + crate::printer::print_items(items).len() <= s.len(),
        s.subrange(
            skip_sp(s, i),
            skip_sp(s, i) + crate::printer::print_items(items).len(),
        ) == crate::printer::print_items(items),
        stops_items(s, skip_sp(s, skip_sp(s, i) + crate::printer::print_items(items).len())),
    ensures
        crate::grammar::parse_items(s, i).0.len() == items.len(),
        forall|k: int|
            0 <= k < items.len() ==> crate::ast::sim_item(
                #[trigger] crate::grammar::parse_items(s, i).0[k],
                items[k],
            ),
        crate::grammar::skip_trailing(s, crate::grammar::parse_items(s, i).1) == skip_sp(
            s,
            skip_sp(s, i) + crate::printer::print_items(items).len(),
        ),
    decreases items, 3int,
{
    let w = skip_sp(s, i);
    lemma_skip_sp_bounds(s, i);
    let pi = crate::printer::print_items(items);
    let pil = pi.len() as int;
    assert forall|k: int| 0 <= k < pil implies #[trigger] s[w + k] == pi[k] by {
        assert(s.subrange(w, w + pil)[k] == s[w + k]);
    }
    if items.len() == 0 {
        assert(pil == 0);
        lemma_skip_sp_idem(s, i);
        lemma_item_stops(s, i);
        assert(crate::grammar::parse_items(s, i) == (Seq::<ItemV>::empty(), i));
    } else {
        let it0 = items[0];
        let p0 = crate::printer::print_item(it0);
        let p0l = p0.len() as int;
        let rest = items.drop_first();
        let pr = crate::printer::print_items(rest);
        let prl = pr.len() as int;
        assert(pi == p0 + pr);
        assert(crate::printer::wf_item(it0));
        assert(crate::printer::wf_items(rest));
        assert forall|k: int| 0 <= k < p0l implies s.subrange(w, w + p0l)[k] == p0[k] by {
            assert(s.subrange(w, w + p0l)[k] == s[w + k]);
            assert(pi[k] == p0[k]);
        }
        assert(s.subrange(w, w + p0l) =~= p0);
        let e0 = w + p0l - 1;
        lemma_print_item_last(it0);
        assert(s[w + (p0l - 1)] == pi[p0l - 1]);
        assert(pi[p0l - 1] == p0[p0l - 1]);
        assert(s[e0] == '\n');
        assert(skip_sp(s, e0) == skip_sp(s, e0 + 1));
        if rest.len() == 0 {
            assert(prl == 0);
            assert(e0 + 1 == w + pil);
        } else {
            lemma_print_item_head(rest[0]);
            assert(pr == crate::printer::print_item(rest[0]) + crate::printer::print_items(
                rest.drop_first(),
            ));
            assert(pr[0] == crate::printer::print_item(rest[0])[0]);
            assert(s[w + p0l] == pi[p0l]);
            assert(pi[p0l] == pr[0]);
            assert(skip_sp(s, e0 + 1) == e0 + 1);
        }
        assert(no_decl_continue(s, skip_sp(s, e0))) by {
            if rest.len() == 0 {
                lemma_skip_sp_idem(s, w + pil);
                assert(skip_sp(s, e0) == skip_sp(s, w + pil));
                assert(stops_items(s, skip_sp(s, e0)));
            } else {
                assert(skip_sp(s, e0) == e0 + 1);
                assert(s[e0 + 1] == pr[0]);
            }
        }
        lemma_item_rt(s, i, it0);
        let (got0, j0) = crate::grammar::parse_item(s, i)->Some_0;
        assert(j0 == e0);
        assert(i < j0 && j0 <= s.len());
        assert(skip_sp(s, e0) + prl <= s.len()) by {
            if rest.len() == 0 {
                lemma_skip_sp_bounds(s, e0);
            } else {
                assert(skip_sp(s, e0) == e0 + 1);
            }
        }
        if rest.len() == 0 {
            lemma_skip_sp_bounds(s, e0);
            assert(s.subrange(skip_sp(s, e0), skip_sp(s, e0)) =~= pr);
        } else {
            assert forall|k: int| 0 <= k < prl implies s.subrange(
                skip_sp(s, e0),
                skip_sp(s, e0) + prl,
            )[k] == pr[k] by {
                assert(skip_sp(s, e0) == e0 + 1);
                let x = p0l + k;
                assert(s.subrange(e0 + 1, e0 + 1 + prl)[k] == s[e0 + 1 + k]);
                assert(e0 + 1 + k == w + x);
                assert(s[w + x] == pi[x]);
                assert(pi[x] == pr[k]);
            }
            assert(s.subrange(skip_sp(s, e0), skip_sp(s, e0) + prl) =~= pr);
        }
        assert(stops_items(s, skip_sp(s, skip_sp(s, e0) + prl))) by {
            if rest.len() == 0 {
                lemma_skip_sp_idem(s, e0);
                assert(skip_sp(s, e0) + 0 == skip_sp(s, e0 + 1));
                lemma_skip_sp_idem(s, e0 + 1);
            } else {
                assert(skip_sp(s, e0) + prl == w + pil);
            }
        }
        lemma_items_rt(s, e0, rest);
        let (gotr, jr) = crate::grammar::parse_items(s, e0);
        assert(crate::grammar::parse_items(s, i).0 == seq![got0] + gotr);
        assert forall|k: int|
            0 <= k < items.len() implies crate::ast::sim_item(
            #[trigger] crate::grammar::parse_items(s, i).0[k],
            items[k],
        ) by {
            if k == 0 {
                assert((seq![got0] + gotr)[0] == got0);
            } else {
                assert((seq![got0] + gotr)[k] == gotr[k - 1]);
                assert(crate::ast::sim_item(gotr[k - 1], rest[k - 1]));
                assert(rest[k - 1] == items[k]);
            }
        }
        assert(skip_sp(s, skip_sp(s, e0) + prl) == skip_sp(s, w + pil)) by {
            if rest.len() == 0 {
                lemma_skip_sp_idem(s, e0);
                lemma_skip_sp_idem(s, e0 + 1);
            } else {
                assert(skip_sp(s, e0) + prl == w + pil);
            }
        }
    }
}

/// Printed trailing comment lines, running to the end of the input, are
/// collected back exactly.
pub proof fn lemma_trailing_rt(s: Seq<char>, i: int, lines: Seq<Seq<char>>)
    requires
        0 <= i <= s.len(),
        forall|k: int|
            0 <= k < lines.len() ==> crate::printer::wf_comment_line(#[trigger] lines[k]),
        skip_sp(s, i) + crate::printer::print_comment_lines(lines).len() == s.len(),
        s.subrange(
            skip_sp(s, i),
            s.len() as int,
        ) == crate::printer::print_comment_lines(lines),
    ensures
        crate::grammar::parse_trailing_lines(s, i) == (lines, s.len() as int),
    decreases lines.len(),
{
    reveal_strlit("// ");
    reveal_strlit("\n");
    let w = skip_sp(s, i);
    lemma_skip_sp_bounds(s, i);
    let pt = crate::printer::print_comment_lines(lines);
    let ptl = pt.len() as int;
    assert forall|k: int| 0 <= k < ptl implies #[trigger] s[w + k] == pt[k] by {
        assert(s.subrange(w, s.len() as int)[k] == s[w + k]);
    }
    if lines.len() == 0 {
        assert(w == s.len());
        assert(parse_comment_line(s, w) is None);
    } else {
        let l0 = lines[0];
        let rest = lines.drop_first();
        let first = "// "@ + l0 + "\n"@;
        assert(pt == first + crate::printer::print_comment_lines(rest));
        assert forall|k: int| 0 <= k < first.len() implies s.subrange(w, w + first.len())[k]
            == first[k] by {
            assert(s.subrange(w, w + first.len())[k] == s[w + k]);
            assert(pt[k] == first[k]);
        }
        assert(s.subrange(w, w + first.len()) =~= first);
        assert(crate::printer::wf_comment_line(lines[0]));
        lemma_comment_line_rt(s, w, l0);
        assert(s[w + 0] == '/');
        assert(!is_sp_char(s[w]));
        let e = w + 4 + l0.len();
        let pr = crate::printer::print_comment_lines(rest);
        let prl = pr.len() as int;
        assert(e + prl == s.len());
        if rest.len() == 0 {
            assert(prl == 0);
            assert(e == s.len());
            assert(skip_sp(s, e) == e);
        } else {
            assert(pr == ("// "@ + rest[0] + "\n"@) + crate::printer::print_comment_lines(
                rest.drop_first(),
            ));
            assert(pr[0] == '/');
            assert(s[w + (first.len() as int)] == pt[first.len() as int]);
            assert(pt[first.len() as int] == pr[0]);
            assert(s[e] == '/');
            assert(skip_sp(s, e) == e);
        }
        assert forall|k: int| 0 <= k < prl implies s.subrange(e, s.len() as int)[k] == pr[k]
            by {
            let x = first.len() + k;
            assert(s.subrange(e, s.len() as int)[k] == s[e + k]);
            assert(e + k == w + x);
            assert(s[w + x] == pt[x]);
            assert(pt[x] == pr[k]);
        }
        assert(s.subrange(e, s.len() as int) =~= pr);
        assert forall|k: int|
            0 <= k < rest.len() implies crate::printer::wf_comment_line(#[trigger] rest[k]) by {
            assert(rest[k] == lines[k + 1]);
        }
        lemma_trailing_rt(s, e, rest);
        assert(i < e);
        assert(seq![l0] + rest =~= lines);
    }
}

/// At printed trailing comment lines that run to the end of the input, no
/// further item parses: the lines are read as a comment prefix, and then
/// the input is exhausted.
pub proof fn lemma_item_stops_trailing(s: Seq<char>, i: int, lines: Seq<Seq<char>>)
    requires
        0 <= i <= s.len(),
        forall|k: int|
            0 <= k < lines.len() ==> crate::printer::wf_comment_line(#[trigger] lines[k]),
        skip_sp(s, i) + crate::printer::print_comment_lines(lines).len() == s.len(),
        s.subrange(
            skip_sp(s, i),
            s.len() as int,
        ) == crate::printer::print_comment_lines(lines),
    ensures
        crate::grammar::parse_item(s, i) is None,
{
    reveal_strlit("// ");
    reveal_strlit("\n");
    let w = skip_sp(s, i);
    lemma_skip_sp_bounds(s, i);
    let pt = crate::printer::print_comment_lines(lines);
    if lines.len() == 0 {
        assert(w == s.len());
        lemma_skip_sp_idem(s, i);
        lemma_item_stops(s, i);
    } else {
        assert(pt == ("// "@ + lines[0] + "\n"@) + crate::printer::print_comment_lines(
            lines.drop_first(),
        ));
        assert(s.subrange(w, s.len() as int)[0] == s[w + 0]);
        assert(s[w] == '/');
        assert(!is_sp_char(s[w]));
        assert(s.subrange(w, w + pt.len()) =~= pt);
        lemma_comment_block_rt(s, w, lines);
        let e = w + pt.len();
        assert(e == s.len());
        assert(skip_line_sp(s, e) == e);
        assert(crate::grammar::parse_comment_prefix(s, i) == (
            Option::Some(crate::ast::CommentV { lines }),
            e,
        ));
        assert(crate::grammar::parse_mods(s, e) == (crate::ast::ModifierSet::spec_empty(), e))
            by {
            assert(skip_sp(s, e) == e);
            if has_chars(s, e, crate::grammar::kw_server()) {
                assert(e + 6 <= s.len());
                assert(false);
            }
            if has_chars(s, e, crate::grammar::kw_client()) {
                assert(e + 6 <= s.len());
                assert(false);
            }
        }
        if has_chars(s, e, crate::grammar::kw_fn()) {
            assert(e + 2 <= s.len());
            assert(false);
        }
        if has_chars(s, e, crate::grammar::kw_nf()) {
            assert(e + 2 <= s.len());
            assert(false);
        }
        if has_chars(s, e, crate::grammar::kw_struct()) {
            assert(e + 6 <= s.len());
            assert(false);
        }
        if has_chars(s, e, crate::grammar::kw_namespace()) {
            assert(e + 9 <= s.len());
            assert(false);
        }
    }
}

/// The printed top-level namespaces of a module, followed by its printed
/// trailing comment lines up to the end of the input, parse back to
/// structurally equal namespaces with the trailing lines collected
/// exactly.
#[verifier::rlimit(100)]
pub proof fn lemma_module_items_rt(
    s: Seq<char>,
    i: int,
    nss: Seq<crate::ast::NamespaceV>,
    trailing: Seq<Seq<char>>,
)
    requires
        0 <= i <= s.len(),
        crate::printer::wf_items(nss.map_values(|n: crate::ast::NamespaceV| ItemV::Namespace(n))),
        forall|k: int|
            0 <= k < trailing.len() ==> crate::printer::wf_comment_line(#[trigger] trailing[k]),
        skip_sp(s, i) + crate::printer::print_items(
            nss.map_values(|n: crate::ast::NamespaceV| ItemV::Namespace(n)),
        ).len() + crate::printer::print_comment_lines(trailing).len() == s.len(),
        s.subrange(
            skip_sp(s, i),
            skip_sp(s, i) + crate::printer::print_items(
                nss.map_values(|n: crate::ast::NamespaceV| ItemV::Namespace(n)),
            ).len(),
        ) == crate::printer::print_items(
            nss.map_values(|n: crate::ast::NamespaceV| ItemV::Namespace(n)),
        ),
        s.subrange(
            skip_sp(s, i) + crate::printer::print_items(
                nss.map_values(|n: crate::ast::NamespaceV| ItemV::Namespace(n)),
            ).len(),
            s.len() as int,
        ) == crate::printer::print_comment_lines(trailing),
    ensures
        crate::grammar::parse_module_items(s, i).0.len() == nss.len(),
        forall|k: int|
            0 <= k < nss.len() ==> crate::ast::sim_namespace(
                #[trigger] crate::grammar::parse_module_items(s, i).0[k],
                nss[k],
            ),
        crate::grammar::parse_trailing_lines(s, crate::grammar::parse_module_items(s, i).1) == (
            trailing,
            s.len() as int,
        ),
    decreases nss.len(),
{
    let w = skip_sp(s, i);
    lemma_skip_sp_bounds(s, i);
    let mapped = nss.map_values(|n: crate::ast::NamespaceV| ItemV::Namespace(n));
    let pn = crate::printer::print_items(mapped);
    let pnl = pn.len() as int;
    assert forall|k: int| 0 <= k < pnl implies #[trigger] s[w + k] == pn[k] by {
        assert(s.subrange(w, w + pnl)[k] == s[w + k]);
    }
    if nss.len() == 0 {
        assert(mapped.len() == 0);
        assert(pnl == 0);
        lemma_skip_sp_idem(s, i);
        lemma_item_stops_trailing(s, i, trailing);
        assert(crate::grammar::parse_module_items(s, i) == (
            Seq::<crate::ast::NamespaceV>::empty(),
            i,
        ));
        lemma_trailing_rt(s, i, trailing);
    } else {
        let n0 = nss[0];
        assert(mapped[0] == ItemV::Namespace(n0));
        let p0 = crate::printer::print_item(mapped[0]);
        let p0l = p0.len() as int;
        let rest = nss.drop_first();
        let mrest = rest.map_values(|n: crate::ast::NamespaceV| ItemV::Namespace(n));
        assert(mapped.drop_first() =~= mrest);
        let pr = crate::printer::print_items(mrest);
        let prl = pr.len() as int;
        assert(pn == p0 + crate::printer::print_items(mapped.drop_first()));
        assert(pn == p0 + pr);
        assert(crate::printer::wf_item(mapped[0]));
        assert(crate::printer::wf_items(mrest));
        assert forall|k: int| 0 <= k < p0l implies s.subrange(w, w + p0l)[k] == p0[k] by {
            assert(s.subrange(w, w + p0l)[k] == s[w + k]);
            assert(pn[k] == p0[k]);
        }
        assert(s.subrange(w, w + p0l) =~= p0);
        lemma_ns_rt(s, i, n0);
        let e0 = w + p0l - 1;
        lemma_print_item_last(mapped[0]);
        assert(s[w + (p0l - 1)] == pn[p0l - 1]);
        assert(pn[p0l - 1] == p0[p0l - 1]);
        assert(s[e0] == '\n');
        assert(skip_sp(s, e0) == skip_sp(s, e0 + 1));
        let w2 = skip_sp(s, e0);
        if rest.len() == 0 {
            assert(prl == 0);
            assert(e0 + 1 == w + pnl);
            if trailing.len() == 0 {
                assert(e0 + 1 == s.len());
                assert(w2 == s.len());
            } else {
                reveal_strlit("// ");
                reveal_strlit("\n");
                let pt = crate::printer::print_comment_lines(trailing);
                assert(pt == ("// "@ + trailing[0] + "\n"@)
                    + crate::printer::print_comment_lines(trailing.drop_first()));
                assert(s.subrange(w + pnl, s.len() as int)[0] == s[w + pnl + 0]);
                assert(s[e0 + 1] == '/');
                assert(w2 == e0 + 1);
            }
        } else {
            lemma_print_item_head(mrest[0]);
            assert(pr == crate::printer::print_item(mrest[0]) + crate::printer::print_items(
                mrest.drop_first(),
            ));
            assert(pr[0] == crate::printer::print_item(mrest[0])[0]);
            assert(s[w + p0l] == pn[p0l]);
            assert(pn[p0l] == pr[0]);
            assert(w2 == e0 + 1);
        }
        let (got0, j0) = crate::grammar::parse_item(s, i)->Some_0;
        assert(j0 == e0);
        assert(i < j0 && j0 <= s.len());
        assert(w2 + prl + crate::printer::print_comment_lines(trailing).len() == s.len()) by {
            if rest.len() == 0 && trailing.len() == 0 {
            } else {
                assert(w2 == e0 + 1);
            }
        }
        assert forall|k: int| 0 <= k < prl implies s.subrange(w2, w2 + prl)[k] == pr[k] by {
            assert(w2 == e0 + 1);
            let x = p0l + k;
            assert(s.subrange(w2, w2 + prl)[k] == s[w2 + k]);
            assert(w2 + k == w + x);
            assert(s[w + x] == pn[x]);
            assert(pn[x] == pr[k]);
        }
        assert(s.subrange(w2, w2 + prl) =~= pr);
        assert(s.subrange(w2 + prl, s.len() as int) =~= crate::printer::print_comment_lines(
            trailing,
        )) by {
            if rest.len() == 0 && trailing.len() == 0 {
                assert(w2 + prl == s.len());
            } else {
                assert(w2 == e0 + 1);
                assert(w2 + prl == w + pnl);
            }
        }
        lemma_module_items_rt(s, e0, rest, trailing);
        let (gotr, jr) = crate::grammar::parse_module_items(s, e0);
        assert(crate::grammar::parse_module_items(s, i).0 == seq![got0->Namespace_0] + gotr);
        assert forall|k: int|
            0 <= k < nss.len() implies crate::ast::sim_namespace(
            #[trigger] crate::grammar::parse_module_items(s, i).0[k],
            nss[k],
        ) by {
            let whole = crate::grammar::parse_module_items(s, i).0;
            if k == 0 {
                assert(whole[0] == got0->Namespace_0);
            } else {
                assert(whole[k] == gotr[k - 1]);
                assert(crate::ast::sim_namespace(gotr[k - 1], rest[k - 1]));
                assert(rest[k - 1] == nss[k]);
            }
        }
    }
}

/// Printing a well-formed module and parsing the text back yields a
/// structurally equal module: same namespaces, functions, structs,
/// fields, types, modifiers, comments, nesting and order, with the
/// trailing comment lines kept exactly.
pub proof fn lemma_module_rt(m: crate::ast::ModuleV)
    requires
        crate::printer::wf_module(m),
    ensures
        crate::grammar::parse_module(crate::printer::print_module(m)) matches Option::Some(m2)
            && crate::ast::sim_module(m2, m),
{
    reveal_strlit("// ");
    reveal_strlit("\n");
    let s = crate::printer::print_module(m);
    let mapped = m.namespaces.map_values(|n: crate::ast::NamespaceV| ItemV::Namespace(n));
    let pn = crate::printer::print_items(mapped);
    let pt = crate::printer::print_comment_lines(m.trailing);
    assert(s == pn + pt);
    assert(skip_sp(s, 0) == 0) by {
        if m.namespaces.len() > 0 {
            lemma_print_item_head(mapped[0]);
            assert(pn == crate::printer::print_item(mapped[0]) + crate::printer::print_items(
                mapped.drop_first(),
            ));
            assert(s[0] == crate::printer::print_item(mapped[0])[0]);
        } else if m.trailing.len() > 0 {
            assert(pn.len() == 0);
            assert(pt == ("// "@ + m.trailing[0] + "\n"@) + crate::printer::print_comment_lines(
                m.trailing.drop_first(),
            ));
            assert(s[0] == '/');
        } else {
            assert(s.len() == 0);
        }
    }
    assert(s.subrange(0, pn.len() as int) =~= pn);
    assert(s.subrange(pn.len() as int, s.len() as int) =~= pt);
    lemma_module_items_rt(s, 0, m.namespaces, m.trailing);
    let (nss2, j) = crate::grammar::parse_module_items(s, 0);
    assert(crate::grammar::parse_trailing_lines(s, j) == (m.trailing, s.len() as int));
}
} // verus!
