use crate::ast::{view_items, ItemV, Module, NamespaceItem};
use vstd::prelude::*;

verus! {

// ---------------------------------------------------------------------------
// The semantic pass that must succeed before code generation: within one
// scope, no two sibling declarations of the same kind may share a name.
// The parser accepts such schemas; it is this pass, and only this pass,
// that rejects them. Its verdict is exactly the `scope_ok` predicate
// below, which code generation takes as its precondition.
// ---------------------------------------------------------------------------

/// One semantic error: where the offending declaration stands, and words
/// for the reader.
#[derive(Debug)]
pub struct CheckError {
    pub pos: usize,
    pub message: String,
}

/// The name a declaration binds in its scope.
pub open spec fn item_name(it: ItemV) -> Seq<char> {
    match it {
        ItemV::Function(f) => f.name.text,
        ItemV::Struct(s) => s.name.text,
        ItemV::Namespace(n) => n.name.text,
    }
}

/// The kind of binding a declaration makes; only bindings of the same
/// kind can collide.
pub open spec fn item_tag(it: ItemV) -> int {
    match it {
        ItemV::Function(_) => 0,
        ItemV::Struct(_) => 1,
        ItemV::Namespace(_) => 2,
    }
}

/// No two sibling declarations of the same kind share a name.
pub open spec fn siblings_ok(items: Seq<ItemV>) -> bool {
    forall|i: int, j: int|
        0 <= i < j < items.len() && item_tag(items[i]) == item_tag(items[j]) ==> item_name(
            items[i],
        ) != item_name(items[j])
}

/// The whole subtree under these items is free of sibling collisions.
pub open spec fn scope_ok(items: Seq<ItemV>) -> bool
    decreases items, 1int,
{
    siblings_ok(items) && items_subtrees_ok(items)
}

pub open spec fn items_subtrees_ok(items: Seq<ItemV>) -> bool
    decreases items, 0int,
{
    if items.len() == 0 {
        true
    } else {
        item_subtree_ok(items[0]) && items_subtrees_ok(items.drop_first())
    }
}

/// Pointwise reading of `items_subtrees_ok`.
pub proof fn lemma_items_subtrees_pointwise(items: Seq<ItemV>)
    ensures
        items_subtrees_ok(items) <==> forall|i: int|
            0 <= i < items.len() ==> #[trigger] item_subtree_ok(items[i]),
    decreases items.len(),
{
    if items.len() > 0 {
        let rest = items.drop_first();
        lemma_items_subtrees_pointwise(rest);
        if items_subtrees_ok(items) {
            assert(items_subtrees_ok(rest));
            assert forall|i: int| 0 <= i < items.len() implies #[trigger] item_subtree_ok(
                items[i],
            ) by {
                if i > 0 {
                    assert(rest[i - 1] == items[i]);
                    assert(item_subtree_ok(rest[i - 1]));
                }
            }
        }
        if forall|i: int| 0 <= i < items.len() ==> #[trigger] item_subtree_ok(items[i]) {
            assert(item_subtree_ok(items[0]));
            assert forall|i: int| 0 <= i < rest.len() implies #[trigger] item_subtree_ok(
                rest[i],
            ) by {
                assert(rest[i] == items[i + 1]);
                assert(item_subtree_ok(items[i + 1]));
            }
            assert(items_subtrees_ok(rest));
            assert(items_subtrees_ok(items));
        }
    }
}

pub open spec fn item_subtree_ok(it: ItemV) -> bool
    decreases it, 2int,
{
    match it {
        ItemV::Function(f) => match f.body {
            Option::Some(b) => scope_ok(b.items),
            Option::None => true,
        },
        ItemV::Struct(_) => true,
        ItemV::Namespace(n) => scope_ok(n.body.items),
    }
}

/// A module passes the check when its top-level namespaces have distinct
/// names and every scope below is collision-free. Top-level namespaces
/// are the only top-level declarations, so they are each other's only
/// siblings.
pub open spec fn spec_check(m: crate::ast::ModuleV) -> bool {
    scope_ok(m.namespaces.map_values(|n: crate::ast::NamespaceV| ItemV::Namespace(n)))
}

fn item_name_x(it: &NamespaceItem) -> (r: &String)
    ensures
        r@ == item_name(it@),
{
    match it {
        NamespaceItem::Function(f) => &f.name.text,
        NamespaceItem::Struct(s) => &s.name.text,
        NamespaceItem::Namespace(n) => &n.name.text,
    }
}

fn item_tag_x(it: &NamespaceItem) -> (r: u8)
    ensures
        r as int == item_tag(it@),
{
    match it {
        NamespaceItem::Function(_) => 0,
        NamespaceItem::Struct(_) => 1,
        NamespaceItem::Namespace(_) => 2,
    }
}

fn item_pos_x(it: &NamespaceItem) -> (r: usize) {
    match it {
        NamespaceItem::Function(f) => f.pos,
        NamespaceItem::Struct(s) => s.pos,
        NamespaceItem::Namespace(n) => n.pos,
    }
}

fn check_items(items: &Vec<NamespaceItem>, errs: &mut Vec<CheckError>) -> (r: bool)
    ensures
        r == scope_ok(view_items(items@)),
    decreases items@, 1int,
{
    broadcast use vstd::std_specs::vec::axiom_vec_index_decreases;

    proof {
        crate::ast::lemma_view_items(items@);
    }
    let ghost iv = view_items(items@);
    let mut i: usize = 0;
    while i < items.len()
        invariant
            i <= items.len(),
            iv == view_items(items@),
            iv.len() == items@.len(),
            forall|k: int| 0 <= k < items@.len() ==> iv[k] == items@[k]@,
            forall|a: int, b: int|
                0 <= a < b < i && item_tag(iv[a]) == item_tag(iv[b]) ==> item_name(iv[a])
                    != item_name(iv[b]),
        decreases items.len() - i,
    {
        let mut j: usize = 0;
        while j < i
            invariant
                j <= i,
                i < items.len(),
                iv == view_items(items@),
                iv.len() == items@.len(),
                forall|k: int| 0 <= k < items@.len() ==> iv[k] == items@[k]@,
                forall|b: int|
                    0 <= b < j ==> !(item_tag(iv[b]) == item_tag(iv[i as int]) && item_name(
                        iv[b],
                    ) == item_name(iv[i as int])),
            decreases i - j,
        {
            let same_kind = item_tag_x(&items[j]) == item_tag_x(&items[i]);
            if same_kind && crate::ir::str_eq(
                item_name_x(&items[j]).as_str(),
                item_name_x(&items[i]).as_str(),
            ) {
                let mut msg = String::from_str("duplicate sibling declaration: ");
                msg.append(item_name_x(&items[i]).as_str());
                errs.push(CheckError { pos: item_pos_x(&items[i]), message: msg });
                proof {
                    assert(item_tag(iv[j as int]) == item_tag(iv[i as int]));
                    assert(item_name(iv[j as int]) == item_name(iv[i as int]));
                    assert(!siblings_ok(iv));
                }
                return false;
            }
            j += 1;
        }
        i += 1;
    }
    proof {
        assert(siblings_ok(iv));
    }
    let mut k: usize = 0;
    while k < items.len()
        invariant
            k <= items.len(),
            iv == view_items(items@),
            iv.len() == items@.len(),
            forall|m: int| 0 <= m < items@.len() ==> iv[m] == items@[m]@,
            siblings_ok(iv),
            forall|m: int| 0 <= m < k ==> #[trigger] item_subtree_ok(iv[m]),
        decreases items.len() - k,
    {
        let this_ok = match &items[k] {
            NamespaceItem::Function(f) => match &f.body {
                Option::Some(b) => check_items(&b.items, errs),
                Option::None => true,
            },
            NamespaceItem::Struct(_) => true,
            NamespaceItem::Namespace(n) => check_items(&n.body.items, errs),
        };
        proof {
            assert(this_ok == item_subtree_ok(iv[k as int]));
        }
        if !this_ok {
            proof {
                assert(!item_subtree_ok(iv[k as int]));
                lemma_items_subtrees_pointwise(iv);
                assert(!items_subtrees_ok(iv));
            }
            return false;
        }
        k += 1;
    }
    proof {
        lemma_items_subtrees_pointwise(iv);
        assert(items_subtrees_ok(iv));
    }
    true
}

/// Checks a parsed module: success exactly when no scope holds two
/// sibling declarations of the same kind with the same name. On failure
/// the returned set of errors is non-empty.
pub fn check(m: &Module) -> (r: Result<(), Vec<CheckError>>)
    ensures
        r is Ok <==> spec_check(m@),
        r matches Err(es) ==> es@.len() > 0,
{
    let mut items: Vec<NamespaceItem> = Vec::new();
    let mut i: usize = 0;
    while i < m.namespaces.len()
        invariant
            i <= m.namespaces.len(),
            items@.len() == i,
            forall|k: int|
                0 <= k < i ==> items@[k]@ == ItemV::Namespace(m.namespaces@[k]@),
        decreases m.namespaces.len() - i,
    {
        items.push(NamespaceItem::Namespace(m.namespaces[i].clone()));
        i += 1;
    }
    proof {
        crate::ast::lemma_view_items(items@);
        assert(view_items(items@) =~= m@.namespaces.map_values(
            |n: crate::ast::NamespaceV| ItemV::Namespace(n),
        ));
    }
    let mut errs: Vec<CheckError> = Vec::new();
    let ok = check_items(&items, &mut errs);
    if ok {
        Ok(())
    } else {
        if errs.len() == 0 {
            errs.push(
                CheckError {
                    pos: 0,
                    message: String::from_str("duplicate sibling declarations"),
                },
            );
        }
        Err(errs)
    }
}

} // verus!
