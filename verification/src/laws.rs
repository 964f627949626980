use crate::ast::ItemV;
use crate::grammar::{
    parse_item, parse_items, parse_mods, parse_module, parse_module_items,
};
use crate::ir::IrFunV;
use vstd::prelude::*;

verus! {

// ---------------------------------------------------------------------------
// Laws that relate several parts of the library to each other.
// ---------------------------------------------------------------------------

/// Every function in this subtree that carries the notification modifier
/// has an empty result list and no body.
pub open spec fn notifs_empty_items(items: Seq<ItemV>) -> bool
    decreases items, 1int,
{
    if items.len() == 0 {
        true
    } else {
        notifs_empty_item(items[0]) && notifs_empty_items(items.drop_first())
    }
}

pub open spec fn notifs_empty_item(it: ItemV) -> bool
    decreases it, 0int,
{
    match it {
        ItemV::Function(f) => (f.modifiers.notification ==> f.results.len() == 0 && f.body
            is None) && (match f.body {
            Option::Some(b) => notifs_empty_items(b.items),
            Option::None => true,
        }),
        ItemV::Struct(_) => true,
        ItemV::Namespace(n) => notifs_empty_items(n.body.items),
    }
}

/// The modifier words before a declaration never make it a notification;
/// only the `nf` keyword does.
proof fn lemma_mods_no_notification(s: Seq<char>, i: int)
    ensures
        !parse_mods(s, i).0.notification,
    decreases s.len() - i,
{
    let a = crate::grammar::skip_sp(s, i);
    if crate::grammar::has_chars(s, a, crate::grammar::kw_server()) && i < a + 6 {
        lemma_mods_no_notification(s, a + 6);
    } else if crate::grammar::has_chars(s, a, crate::grammar::kw_client()) && i < a + 6 {
        lemma_mods_no_notification(s, a + 6);
    }
}

/// A notification declared with `nf` always has an empty result list and
/// no body, whatever trailing text its declaration carries; and no other
/// rule introduces the notification modifier. This holds of every
/// function anywhere in a parsed item.
pub proof fn lemma_notification_results_empty(s: Seq<char>, i: int)
    ensures
        match parse_item(s, i) {
            Option::Some((it, _)) => notifs_empty_item(it),
            Option::None => true,
        },
    decreases s.len() - i, 0int,
{
    let (cmt, a) = crate::grammar::parse_comment_prefix(s, i);
    lemma_mods_no_notification(s, a);
    let (mods, b) = parse_mods(s, a);
    if crate::grammar::has_chars(s, b, crate::grammar::kw_fn()) {
        let d = crate::grammar::skip_sp(s, b + 2);
        match crate::grammar::parse_ident(s, d) {
            Option::None => {},
            Option::Some((name, e)) => {
                let f = crate::grammar::skip_sp(s, e);
                if f < s.len() && s[f] == '(' {
                    let (params, g) = crate::grammar::parse_fields(s, f + 1);
                    let h = crate::grammar::skip_sp(s, g);
                    if h < s.len() && s[h] == ')' {
                        let (results, k) = match crate::grammar::parse_results(s, h + 1) {
                            Option::Some((rs, k)) => (rs, k),
                            Option::None => (Seq::<crate::ast::FieldV>::empty(), h + 1),
                        };
                        let m = crate::grammar::skip_sp(s, k);
                        if m < s.len() && s[m] == '{' && i < m + 1 {
                            lemma_notification_items_empty(s, m + 1);
                        }
                    }
                }
            },
        }
    } else if crate::grammar::has_chars(s, b, crate::grammar::kw_namespace()) && mods
        == crate::ast::ModifierSet::spec_empty() {
        let d = crate::grammar::skip_sp(s, b + 9);
        match crate::grammar::parse_ident(s, d) {
            Option::None => {},
            Option::Some((name, e)) => {
                let f = crate::grammar::skip_sp(s, e);
                if f < s.len() && s[f] == '{' && i < f + 1 {
                    lemma_notification_items_empty(s, f + 1);
                }
            },
        }
    }
}

/// The same, for every item of a parsed item list.
pub proof fn lemma_notification_items_empty(s: Seq<char>, i: int)
    ensures
        notifs_empty_items(parse_items(s, i).0),
    decreases s.len() - i, 1int,
{
    match parse_item(s, i) {
        Option::None => {},
        Option::Some((it, j)) => {
            lemma_notification_results_empty(s, i);
            assert(notifs_empty_item(it));
            if i < j && j <= s.len() {
                lemma_notification_items_empty(s, j);
                let (rest, k) = parse_items(s, j);
                assert(parse_items(s, i).0 == seq![it] + rest);
                assert((seq![it] + rest)[0] == it);
                assert((seq![it] + rest).drop_first() =~= rest);
                assert(notifs_empty_items(seq![it] + rest));
            } else {
                assert(parse_items(s, i).0 == seq![it]);
                assert(seq![it].len() == 1);
                assert(seq![it][0] == it);
                assert(seq![it].drop_first() =~= Seq::<ItemV>::empty());
                assert(notifs_empty_items(Seq::<ItemV>::empty()));
                assert(notifs_empty_items(seq![it]) == (notifs_empty_item(seq![it][0])
                    && notifs_empty_items(seq![it].drop_first())));
                assert(notifs_empty_items(seq![it]));
            }
        },
    }
}

/// Every notification in a parsed module has an empty result list,
/// regardless of any result text its declaration carried.
pub proof fn lemma_module_notifications_empty(s: Seq<char>)
    ensures
        match parse_module(s) {
            Option::Some(m) => notifs_empty_items(
                m.namespaces.map_values(|n: crate::ast::NamespaceV| ItemV::Namespace(n)),
            ),
            Option::None => true,
        },
{
    lemma_module_items_notifs(s, 0);
    match parse_module(s) {
        Option::Some(m) => {
            assert(m.namespaces == parse_module_items(s, 0).0);
        },
        Option::None => {},
    }
}

#[verifier::rlimit(60)]
proof fn lemma_module_items_notifs(s: Seq<char>, i: int)
    ensures
        notifs_empty_items(
            parse_module_items(s, i).0.map_values(
                |n: crate::ast::NamespaceV| ItemV::Namespace(n),
            ),
        ),
    decreases s.len() - i,
{
    match parse_item(s, i) {
        Option::Some((it, j)) => {
            if it is Namespace {
                let n = it->Namespace_0;
                lemma_notification_results_empty(s, i);
                assert(notifs_empty_item(it));
                if i < j && j <= s.len() {
                    lemma_module_items_notifs(s, j);
                    let (rest, k) = parse_module_items(s, j);
                    let whole = parse_module_items(s, i).0;
                    assert(whole == seq![n] + rest);
                    let mapped = whole.map_values(
                        |x: crate::ast::NamespaceV| ItemV::Namespace(x),
                    );
                    let mapped_rest = rest.map_values(
                        |x: crate::ast::NamespaceV| ItemV::Namespace(x),
                    );
                    assert(mapped.len() == whole.len());
                    assert(whole[0] == n);
                    assert(mapped[0] == it);
                    assert(mapped.drop_first() =~= mapped_rest);
                    assert(notifs_empty_items(mapped) == (notifs_empty_item(mapped[0])
                        && notifs_empty_items(mapped.drop_first())));
                    assert(notifs_empty_items(mapped));
                } else {
                    let whole = parse_module_items(s, i).0;
                    assert(whole == seq![n]);
                    let mapped = whole.map_values(
                        |x: crate::ast::NamespaceV| ItemV::Namespace(x),
                    );
                    assert(whole[0] == n);
                    assert(mapped[0] == it);
                    assert(mapped.drop_first() =~= Seq::<ItemV>::empty());
                    assert(notifs_empty_items(Seq::<ItemV>::empty()));
                    assert(notifs_empty_items(mapped) == (notifs_empty_item(mapped[0])
                        && notifs_empty_items(mapped.drop_first())));
                    assert(notifs_empty_items(mapped));
                }
            } else {
                let whole = parse_module_items(s, i).0;
                assert(whole =~= Seq::<crate::ast::NamespaceV>::empty());
                assert(whole.map_values(|x: crate::ast::NamespaceV| ItemV::Namespace(x)).len()
                    == 0);
            }
        },
        Option::None => {
            let whole = parse_module_items(s, i).0;
            assert(whole =~= Seq::<crate::ast::NamespaceV>::empty());
            assert(whole.map_values(|x: crate::ast::NamespaceV| ItemV::Namespace(x)).len() == 0);
        },
    }
}

/// The flattened case identifier is derived from one name chain by one
/// rule, shared by the generator that defines a dispatch tagged-union and
/// the generator that constructs its cases: for a function node whose
/// token chain equals an anchored function's name chain, the identifier
/// the protocol generator renders into the union equals, character for
/// character, the identifier the handler's adapter matches on.
pub proof fn lemma_variant_consistency(f: IrFunV, names: Seq<Seq<char>>)
    requires
        f.tokens == names,
    ensures
        crate::protocol::fun_variant(f) == crate::handler::chain_variant(names),
{
}

} // verus!
