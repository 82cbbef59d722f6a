//! Item planning: which status-bar items a configuration enables, in
//! display order. Unknown names are skipped, so one bad entry never
//! takes the other items down.

use vstd::prelude::*;

use crate::text::str_eq;

verus! {

/// The closed set of item kinds the bar can host.
#[derive(Debug, Clone, Copy, PartialEq, Eq, Structural)]
pub enum ItemKind {
    Clock,
    Battery,
    Cpu,
    Mem,
    Temp,
}

/// The item kind a configured name selects, if any.
pub open spec fn kind_for(name: Seq<char>) -> Option<ItemKind> {
    if name == "clock"@ {
        Some(ItemKind::Clock)
    } else if name == "battery"@ {
        Some(ItemKind::Battery)
    } else if name == "cpu"@ {
        Some(ItemKind::Cpu)
    } else if name == "mem"@ {
        Some(ItemKind::Mem)
    } else if name == "temp"@ {
        Some(ItemKind::Temp)
    } else {
        None
    }
}

/// Resolves one configured item name.
pub fn item_kind_for(name: &str) -> (r: Option<ItemKind>)
    ensures
        r == kind_for(name@),
{
    if str_eq(name, "clock") {
        Some(ItemKind::Clock)
    } else if str_eq(name, "battery") {
        Some(ItemKind::Battery)
    } else if str_eq(name, "cpu") {
        Some(ItemKind::Cpu)
    } else if str_eq(name, "mem") {
        Some(ItemKind::Mem)
    } else if str_eq(name, "temp") {
        Some(ItemKind::Temp)
    } else {
        None
    }
}

/// Folds configured names into item kinds, in order, skipping unknown
/// names.
pub open spec fn plan_rec(names: Seq<Seq<char>>, acc: Seq<ItemKind>) -> Seq<ItemKind>
    decreases names.len(),
{
    if names.len() == 0 {
        acc
    } else {
        match kind_for(names[0]) {
            Some(k) => plan_rec(names.drop_first(), acc.push(k)),
            None => plan_rec(names.drop_first(), acc),
        }
    }
}

/// The item kinds a name list enables, in order.
pub open spec fn planned(names: Seq<Seq<char>>) -> Seq<ItemKind> {
    plan_rec(names, Seq::empty())
}

/// Resolves the configured item names into kinds, preserving their
/// order and skipping unknown names.
pub fn plan_items(names: &Vec<String>) -> (r: Vec<ItemKind>)
    ensures
        r@ == planned(names@.map_values(|s: String| s@)),
{
    let ghost nv = names@.map_values(|s: String| s@);
    let mut out: Vec<ItemKind> = Vec::new();
    proof {
        assert(nv.skip(0) =~= nv);
        assert(out@ =~= Seq::<ItemKind>::empty());
    }
    let mut i: usize = 0;
    while i < names.len()
        invariant
            nv == names@.map_values(|s: String| s@),
            0 <= i <= names@.len(),
            plan_rec(nv.skip(i as int), out@) == planned(nv),
        decreases names@.len() - i,
    {
        proof {
            assert(nv.skip(i as int)[0] == nv[i as int]);
            assert(nv.skip(i as int).drop_first() =~= nv.skip(i as int + 1));
        }
        match item_kind_for(names[i].as_str()) {
            Some(k) => {
                out.push(k);
            },
            None => {},
        }
        i = i + 1;
    }
    proof {
        assert(nv.skip(i as int).len() == 0);
    }
    out
}

} // verus!
