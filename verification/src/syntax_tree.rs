//! A parsed source file as the parser hands it over: the items, with the
//! bodies of functions, constants and statics kept as trees of syntax
//! nodes. The depth-first walk over those trees, which gives the body events
//! the analyses read, is done here.
use vstd::prelude::*;
use crate::syntax::{
    Attribute, BodyEvent, FnItem, GenericParam, ImplItem, Item, Signature, SourceFile, SynPath, SynType, TraitItem,
    Visibility,
};

verus! {

/// A node of a syntax tree: the event it stands for, if the walk reports it,
/// and its sub-nodes in the order the walk meets them.
pub struct SyntaxNode {
    pub event: Option<BodyEvent>,
    pub children: Vec<SyntaxNode>,
}

/// A node that reports nothing itself.
pub fn plain(children: Vec<SyntaxNode>) -> (res: SyntaxNode)
    ensures
        res.event is None,
        res.children == children,
{
    SyntaxNode { event: None, children }
}

/// A node that reports `event` before its sub-nodes.
pub fn marked(event: BodyEvent, children: Vec<SyntaxNode>) -> (res: SyntaxNode)
    ensures
        res.event == Some(event),
        res.children == children,
{
    SyntaxNode { event: Some(event), children }
}

/// What a depth-first walk of a node meets: the node's own event, then what
/// the walk of each sub-node meets, in order.
pub open spec fn node_events(n: SyntaxNode) -> Seq<BodyEvent>
    decreases n,
{
    let own = match n.event {
        Some(e) => seq![e],
        None => Seq::empty(),
    };
    proof {
        assert(decreases_to!(n => n.children));
        assert(decreases_to!(n.children => n.children@));
    }
    own + nodes_events(n.children@)
}

/// What the walks of a list of nodes meet, one after another.
pub open spec fn nodes_events(ns: Seq<SyntaxNode>) -> Seq<BodyEvent>
    decreases ns,
{
    if ns.len() == 0 {
        Seq::empty()
    } else {
        proof {
            assert(decreases_to!(ns => ns.subrange(0, ns.len() - 1)));
            assert(decreases_to!(ns => ns[ns.len() - 1]));
        }
        nodes_events(ns.subrange(0, ns.len() - 1)) + node_events(ns[ns.len() - 1])
    }
}

/// The events a depth-first walk of `n` meets, in order.
pub fn events_of(n: SyntaxNode) -> (res: Vec<BodyEvent>)
    ensures
        res@ == node_events(n),
    decreases n,
{
    let ghost n0 = n;
    let SyntaxNode { event, children } = n;
    let mut out: Vec<BodyEvent> = Vec::new();
    match event {
        Some(e) => out.push(e),
        None => {},
    }
    let ghost own = out@;
    let ghost cs = children@;
    proof {
        assert(decreases_to!(n0 => n0.children));
        assert(decreases_to!(n0.children => n0.children@));
        assert(cs == n0.children@);
        assert(cs.subrange(0, 0) =~= Seq::<SyntaxNode>::empty());
        assert(own + nodes_events(cs.subrange(0, 0)) =~= own);
        assert(cs.subrange(0, cs.len() as int) =~= cs);
    }
    let mut rest = children;
    let ghost mut k: int = 0;
    #[verifier::loop_isolation(false)]
    while rest.len() > 0
        invariant
            0 <= k <= cs.len(),
            rest@ == cs.subrange(k, cs.len() as int),
            out@ == own + nodes_events(cs.subrange(0, k)),
            cs == n0.children@,
            own == (match n0.event {
                Some(e) => seq![e],
                None => Seq::<BodyEvent>::empty(),
            }),
        decreases rest.len(),
    {
        let c = rest.remove(0);
        proof {
            assert(c == cs[k]);
            assert(decreases_to!(n0 => n0.children));
            assert(decreases_to!(n0.children => n0.children@));
            assert(decreases_to!(n0.children@ => n0.children@[k]));
            let next = cs.subrange(0, k + 1);
            assert(next.subrange(0, next.len() - 1) =~= cs.subrange(0, k));
            assert(next[next.len() - 1] == c);
            assert(rest@ =~= cs.subrange(k + 1, cs.len() as int));
        }
        let mut sub = events_of(c);
        let ghost a = out@;
        out.append(&mut sub);
        proof {
            assert(out@ =~= own + nodes_events(cs.subrange(0, k + 1)));
            k = k + 1;
        }
    }
    proof {
        assert(k == cs.len());
        assert(cs.subrange(0, k) =~= cs);
    }
    out
}

// ---------------------------------------------------------------------------
// Items with their bodies as trees
// ---------------------------------------------------------------------------

/// A function with its body as a tree.
pub struct RawFnItem {
    pub attrs: Vec<Attribute>,
    pub vis: Visibility,
    pub sig: Signature,
    pub body: SyntaxNode,
    pub block_text: String,
    pub start_line: u32,
    pub end_line: u32,
}

pub enum RawImplItem {
    Fn(RawFnItem),
    Other,
}

pub enum RawTraitItem {
    Fn { attrs: Vec<Attribute>, sig: Signature, default: Option<SyntaxNode>, start_line: u32, end_line: u32 },
    /// An item with no body.
    Plain(TraitItem),
}

/// An item as the parser hands it over.
pub enum RawItem {
    Fn(RawFnItem),
    Impl { self_ty: SynType, trait_path: Option<SynPath>, items: Vec<RawImplItem>, generics: Vec<GenericParam> },
    Trait {
        attrs: Vec<Attribute>,
        ident: String,
        ident_line: u32,
        generics: Vec<GenericParam>,
        items: Vec<RawTraitItem>,
        start_line: u32,
    },
    Const { vis: Visibility, ident: String, ty: SynType, body: SyntaxNode, start_line: u32, end_line: u32 },
    Static {
        vis: Visibility,
        ident: String,
        ty: SynType,
        mutable: bool,
        body: SyntaxNode,
        start_line: u32,
        end_line: u32,
    },
    Mod { ident: String, items: Vec<RawItem> },
    /// An item with no body.
    Plain(Item),
}

/// A parsed source file as the parser hands it over.
pub struct RawSourceFile {
    pub items: Vec<RawItem>,
}

/// `f` is `r` with its body's events in place of the tree.
pub open spec fn fn_of(r: RawFnItem, f: FnItem) -> bool {
    &&& f.attrs == r.attrs
    &&& f.vis == r.vis
    &&& f.sig == r.sig
    &&& f.body@ == node_events(r.body)
    &&& f.block_text == r.block_text
    &&& f.start_line == r.start_line
    &&& f.end_line == r.end_line
}

pub open spec fn impl_item_of(r: RawImplItem, i: ImplItem) -> bool {
    match (r, i) {
        (RawImplItem::Fn(rf), ImplItem::Fn(f)) => fn_of(rf, f),
        (RawImplItem::Other, ImplItem::Other) => true,
        _ => false,
    }
}

pub open spec fn trait_item_of(r: RawTraitItem, t: TraitItem) -> bool {
    match r {
        RawTraitItem::Fn { attrs, sig, default, start_line, end_line } => match t {
            TraitItem::Fn { attrs: a, sig: s, default: d, start_line: sl, end_line: el } => {
                &&& a == attrs
                &&& s == sig
                &&& sl == start_line
                &&& el == end_line
                &&& match (default, d) {
                    (Some(n), Some(v)) => v@ == node_events(n),
                    (None, None) => true,
                    _ => false,
                }
            },
            _ => false,
        },
        RawTraitItem::Plain(t0) => t == t0,
    }
}

/// `it` is `r` with each body's events in place of its tree.
pub open spec fn item_of(r: RawItem, it: Item) -> bool
    decreases r,
{
    match r {
        RawItem::Fn(rf) => it matches Item::Fn(f) && fn_of(rf, f),
        RawItem::Impl { self_ty, trait_path, items, generics } => match it {
            Item::Impl { self_ty: s, trait_path: t, items: is, generics: g } => {
                &&& s == self_ty
                &&& t == trait_path
                &&& g == generics
                &&& is@.len() == items@.len()
                &&& forall|i: int| 0 <= i < items@.len() ==> impl_item_of(#[trigger] items@[i], is@[i])
            },
            _ => false,
        },
        RawItem::Trait { attrs, ident, ident_line, generics, items, start_line } => match it {
            Item::Trait { attrs: a, ident: id, ident_line: il, generics: g, items: ts, start_line: sl } => {
                &&& a == attrs
                &&& id == ident
                &&& il == ident_line
                &&& g == generics
                &&& sl == start_line
                &&& ts@.len() == items@.len()
                &&& forall|i: int| 0 <= i < items@.len() ==> trait_item_of(#[trigger] items@[i], ts@[i])
            },
            _ => false,
        },
        RawItem::Const { vis, ident, ty, body, start_line, end_line } => match it {
            Item::Const { vis: v, ident: id, ty: t, body: b, start_line: sl, end_line: el } => {
                &&& v == vis
                &&& id == ident
                &&& t == ty
                &&& b@ == node_events(body)
                &&& sl == start_line
                &&& el == end_line
            },
            _ => false,
        },
        RawItem::Static { vis, ident, ty, mutable, body, start_line, end_line } => match it {
            Item::Static { vis: v, ident: id, ty: t, mutable: m, body: b, start_line: sl, end_line: el } => {
                &&& v == vis
                &&& id == ident
                &&& t == ty
                &&& m == mutable
                &&& b@ == node_events(body)
                &&& sl == start_line
                &&& el == end_line
            },
            _ => false,
        },
        RawItem::Mod { ident, items } => match it {
            Item::Mod { ident: id, items: is } => {
                proof {
                    assert(decreases_to!(r => items));
                    assert(decreases_to!(items => items@));
                }
                id == ident && items_of(items@, is@)
            },
            _ => false,
        },
        RawItem::Plain(x) => it == x,
    }
}

/// Each item of `its` is the item of `rs` at its position with each body's
/// events in place of its tree.
pub open spec fn items_of(rs: Seq<RawItem>, its: Seq<Item>) -> bool
    decreases rs,
{
    if rs.len() == 0 {
        its.len() == 0
    } else {
        proof {
            assert(decreases_to!(rs => rs.subrange(0, rs.len() - 1)));
            assert(decreases_to!(rs => rs[rs.len() - 1]));
        }
        &&& its.len() == rs.len()
        &&& items_of(rs.subrange(0, rs.len() - 1), its.subrange(0, its.len() - 1))
        &&& item_of(rs[rs.len() - 1], its[its.len() - 1])
    }
}

/// The source file that `raw` stands for.
pub open spec fn file_of(raw: RawSourceFile, f: SourceFile) -> bool {
    items_of(raw.items@, f.items@)
}

fn fn_item_of(r: RawFnItem) -> (res: FnItem)
    ensures
        fn_of(r, res),
{
    let RawFnItem { attrs, vis, sig, body, block_text, start_line, end_line } = r;
    FnItem { attrs, vis, sig, body: events_of(body), block_text, start_line, end_line }
}

fn impl_items_of(rs: Vec<RawImplItem>) -> (res: Vec<ImplItem>)
    ensures
        res@.len() == rs@.len(),
        forall|i: int| 0 <= i < rs@.len() ==> impl_item_of(#[trigger] rs@[i], res@[i]),
{
    let ghost r0 = rs@;
    let mut rest = rs;
    let mut out: Vec<ImplItem> = Vec::new();
    while rest.len() > 0
        invariant
            out@.len() <= r0.len(),
            rest@ == r0.subrange(out@.len() as int, r0.len() as int),
            forall|i: int| 0 <= i < out@.len() ==> impl_item_of(#[trigger] r0[i], out@[i]),
        decreases rest.len(),
    {
        let ghost k: int = out@.len() as int;
        let r = rest.remove(0);
        assert(r == r0[k]);
        let it = match r {
            RawImplItem::Fn(rf) => ImplItem::Fn(fn_item_of(rf)),
            RawImplItem::Other => ImplItem::Other,
        };
        out.push(it);
        assert(rest@ =~= r0.subrange(out@.len() as int, r0.len() as int));
    }
    out
}

fn trait_items_of(rs: Vec<RawTraitItem>) -> (res: Vec<TraitItem>)
    ensures
        res@.len() == rs@.len(),
        forall|i: int| 0 <= i < rs@.len() ==> trait_item_of(#[trigger] rs@[i], res@[i]),
{
    let ghost r0 = rs@;
    let mut rest = rs;
    let mut out: Vec<TraitItem> = Vec::new();
    while rest.len() > 0
        invariant
            out@.len() <= r0.len(),
            rest@ == r0.subrange(out@.len() as int, r0.len() as int),
            forall|i: int| 0 <= i < out@.len() ==> trait_item_of(#[trigger] r0[i], out@[i]),
        decreases rest.len(),
    {
        let ghost k: int = out@.len() as int;
        let r = rest.remove(0);
        assert(r == r0[k]);
        let it = match r {
            RawTraitItem::Fn { attrs, sig, default, start_line, end_line } => {
                let d = match default {
                    Some(n) => Some(events_of(n)),
                    None => None,
                };
                TraitItem::Fn { attrs, sig, default: d, start_line, end_line }
            },
            RawTraitItem::Plain(t) => t,
        };
        out.push(it);
        assert(rest@ =~= r0.subrange(out@.len() as int, r0.len() as int));
    }
    out
}

fn item_of_raw(r: RawItem) -> (res: Item)
    ensures
        item_of(r, res),
    decreases r,
{
    let ghost r0 = r;
    match r {
        RawItem::Fn(rf) => Item::Fn(fn_item_of(rf)),
        RawItem::Impl { self_ty, trait_path, items, generics } => {
            Item::Impl { self_ty, trait_path, items: impl_items_of(items), generics }
        },
        RawItem::Trait { attrs, ident, ident_line, generics, items, start_line } => {
            Item::Trait { attrs, ident, ident_line, generics, items: trait_items_of(items), start_line }
        },
        RawItem::Const { vis, ident, ty, body, start_line, end_line } => {
            Item::Const { vis, ident, ty, body: events_of(body), start_line, end_line }
        },
        RawItem::Static { vis, ident, ty, mutable, body, start_line, end_line } => {
            Item::Static { vis, ident, ty, mutable, body: events_of(body), start_line, end_line }
        },
        RawItem::Mod { ident, items } => {
            proof {
                assert(decreases_to!(r0 => items));
            }
            let is = items_of_raw(items);
            Item::Mod { ident, items: is }
        },
        RawItem::Plain(x) => x,
    }
}

fn items_of_raw(rs: Vec<RawItem>) -> (res: Vec<Item>)
    ensures
        items_of(rs@, res@),
    decreases rs,
{
    let ghost r0 = rs@;
    let ghost v0 = rs;
    let mut rest = rs;
    let mut out: Vec<Item> = Vec::new();
    proof {
        assert(r0.subrange(0, 0) =~= Seq::<RawItem>::empty());
        assert(r0.subrange(0, r0.len() as int) =~= r0);
    }
    #[verifier::loop_isolation(false)]
    while rest.len() > 0
        invariant
            out@.len() <= r0.len(),
            r0 == v0@,
            rest@ == r0.subrange(out@.len() as int, r0.len() as int),
            items_of(r0.subrange(0, out@.len() as int), out@),
        decreases rest.len(),
    {
        let ghost k: int = out@.len() as int;
        let ghost before = out@;
        let r = rest.remove(0);
        proof {
            assert(r == r0[k]);
            assert(decreases_to!(v0 => v0@[k]));
        }
        let it = item_of_raw(r);
        out.push(it);
        proof {
            let pre = r0.subrange(0, k + 1);
            assert(pre.subrange(0, pre.len() - 1) =~= r0.subrange(0, k));
            assert(out@.subrange(0, out@.len() - 1) =~= before);
            assert(pre[pre.len() - 1] == r);
            assert(rest@ =~= r0.subrange(out@.len() as int, r0.len() as int));
        }
    }
    proof {
        assert(r0.subrange(0, out@.len() as int) =~= r0);
    }
    out
}

/// The source file that a parsed file stands for: its items, each body's
/// tree replaced by the events a depth-first walk of it meets.
pub fn source_file_of(raw: RawSourceFile) -> (res: SourceFile)
    ensures
        file_of(raw, res),
{
    let RawSourceFile { items } = raw;
    SourceFile { items: items_of_raw(items) }
}

} // verus!
