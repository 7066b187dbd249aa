//! Symbol tables: the labels of a scope and the indices that they stand
//! for.

use vstd::prelude::*;
use vstd::string::*;

verus! {

/// A label and the place that it names.
#[derive(Clone, Debug)]
pub struct Symbol {
    /// The name of the label.
    pub name: String,
    /// The index that the label stands for.
    pub index: usize,
}

/// The labels of a scope. A name that is defined again takes the place of
/// the earlier definition.
#[derive(Clone, Debug)]
pub struct SymbolTable {
    /// The definitions, a later one coming after an earlier one.
    pub entries: Vec<Symbol>,
}

/// The map from names to indices that a sequence of definitions makes,
/// where a later definition of a name replaces an earlier one.
pub open spec fn table(entries: Seq<Symbol>) -> Map<Seq<char>, nat>
    decreases entries.len(),
{
    if entries.len() == 0 {
        Map::empty()
    } else {
        table(entries.drop_last()).insert(entries.last().name@, entries.last().index as nat)
    }
}

impl View for SymbolTable {
    type V = Map<Seq<char>, nat>;

    open spec fn view(&self) -> Map<Seq<char>, nat> {
        table(self.entries@)
    }
}

impl Default for SymbolTable {
    fn default() -> (t: SymbolTable)
        ensures
            t@ == Map::<Seq<char>, nat>::empty(),
    {
        SymbolTable { entries: Vec::new() }
    }
}

impl SymbolTable {
    /// A table without labels.
    pub fn new() -> (t: SymbolTable)
        ensures
            t@ == Map::<Seq<char>, nat>::empty(),
    {
        SymbolTable { entries: Vec::new() }
    }

    /// Defines `name` as `index`, in place of what it was before.
    pub fn insert(&mut self, name: String, index: usize)
        ensures
            final(self)@ == old(self)@.insert(name@, index as nat),
    {
        self.entries.push(Symbol { name, index });
        assert(self.entries@.drop_last() =~= old(self).entries@);
    }

    /// The index that `name` stands for, if it is defined.
    pub fn get(&self, name: &str) -> (r: Option<usize>)
        ensures
            match r {
                Some(index) => self@.contains_key(name@) && self@[name@] == index,
                None => !self@.contains_key(name@),
            },
    {
        let wanted = String::from_str(name);
        let mut i: usize = self.entries.len();
        let ghost all = self.entries@;
        assert(all.take(all.len() as int) =~= all);
        while i > 0
            invariant
                i <= self.entries.len(),
                all == self.entries@,
                wanted@ == name@,
                table(all).contains_key(name@) <==> table(all.take(i as int)).contains_key(name@),
                table(all).contains_key(name@) ==> table(all)[name@] == table(
                    all.take(i as int),
                )[name@],
            decreases i,
        {
            i -= 1;
            proof {
                assert(all.take(i + 1).drop_last() =~= all.take(i as int));
                assert(all.take(i + 1).last() == all[i as int]);
            }
            if self.entries[i].name == wanted {
                return Some(self.entries[i].index);
            }
        }
        assert(all.take(0) =~= Seq::<Symbol>::empty());
        None
    }

    /// The table of `self`, overridden by `inner`.
    pub fn overridden(&self, inner: &SymbolTable) -> (t: SymbolTable)
        ensures
            t@ == self@.union_prefer_right(inner@),
    {
        let mut entries: Vec<Symbol> = Vec::new();
        let mut i: usize = 0;
        while i < self.entries.len()
            invariant
                i <= self.entries.len(),
                entries.len() == i,
                forall|k: int|
                    0 <= k < i ==> (#[trigger] entries@[k]).name@ == self.entries@[k].name@
                        && entries@[k].index == self.entries@[k].index,
            decreases self.entries.len() - i,
        {
            entries.push(
                Symbol { name: self.entries[i].name.clone(), index: self.entries[i].index },
            );
            i += 1;
        }
        let ghost outer = entries@;
        proof {
            lemma_table_mapped(self.entries@, outer, |n: nat| n);
            assert(table(self.entries@).map_values(|n: nat| n) =~= table(self.entries@));
        }
        let mut j: usize = 0;
        while j < inner.entries.len()
            invariant
                j <= inner.entries.len(),
                entries.len() == outer.len() + j,
                entries@.take(outer.len() as int) == outer,
                forall|k: int|
                    0 <= k < j ==> (#[trigger] entries@[outer.len() + k]).name@
                        == inner.entries@[k].name@ && entries@[outer.len() + k].index
                        == inner.entries@[k].index,
            decreases inner.entries.len() - j,
        {
            let ghost before = entries@;
            entries.push(
                Symbol { name: inner.entries[j].name.clone(), index: inner.entries[j].index },
            );
            assert(entries@.take(outer.len() as int) =~= before.take(outer.len() as int));
            j += 1;
        }
        proof {
            let tail = entries@.skip(outer.len() as int);
            assert(entries@ =~= outer + tail);
            lemma_table_concat(outer, tail);
            assert forall|k: int| 0 <= k < tail.len() implies (#[trigger] tail[k]).name@
                == inner.entries@[k].name@ && tail[k].index as nat
                == inner.entries@[k].index as nat by {
                assert(tail[k] == entries@[outer.len() + k]);
            }
            lemma_table_mapped(inner.entries@, tail, |n: nat| n);
            assert(table(inner.entries@).map_values(|n: nat| n) =~= table(inner.entries@));
        }
        SymbolTable { entries }
    }
}

/// The table of `a` followed by `b` is that of `a`, overridden by that
/// of `b`.
pub proof fn lemma_table_concat(a: Seq<Symbol>, b: Seq<Symbol>)
    ensures
        table(a + b) == table(a).union_prefer_right(table(b)),
    decreases b.len(),
{
    if b.len() == 0 {
        assert(a + b =~= a);
        assert(table(a).union_prefer_right(table(b)) =~= table(a));
    } else {
        lemma_table_concat(a, b.drop_last());
        assert((a + b).drop_last() =~= a + b.drop_last());
        assert((a + b).last() == b.last());
        assert(table(a + b) =~= table(a).union_prefer_right(table(b)));
    }
}

/// Mapping the indices of a sequence of definitions maps the indices of
/// its table.
pub proof fn lemma_table_mapped(a: Seq<Symbol>, b: Seq<Symbol>, f: spec_fn(nat) -> nat)
    requires
        a.len() == b.len(),
        forall|i: int|
            0 <= i < a.len() ==> (#[trigger] b[i]).name@ == a[i].name@ && b[i].index as nat == f(
                a[i].index as nat,
            ),
    ensures
        table(b) == table(a).map_values(f),
    decreases a.len(),
{
    if a.len() == 0 {
        assert(table(b) =~= table(a).map_values(f));
    } else {
        lemma_table_mapped(a.drop_last(), b.drop_last(), f);
        assert(b.last().name@ == a.last().name@);
        assert(table(b) =~= table(a).map_values(f));
    }
}

/// A name is in the table of a sequence of definitions where one of them
/// defines it.
pub proof fn lemma_table_dom(entries: Seq<Symbol>, name: Seq<char>)
    ensures
        table(entries).contains_key(name) <==> exists|i: int|
            0 <= i < entries.len() && (#[trigger] entries[i]).name@ == name,
    decreases entries.len(),
{
    if entries.len() > 0 {
        lemma_table_dom(entries.drop_last(), name);
        if table(entries).contains_key(name) {
            if entries.last().name@ == name {
                assert(entries[entries.len() - 1].name@ == name);
            } else {
                let i = choose|i: int|
                    0 <= i < entries.drop_last().len() && (#[trigger] entries.drop_last()[i]).name@
                        == name;
                assert(entries[i].name@ == name);
            }
        }
        if exists|i: int| 0 <= i < entries.len() && (#[trigger] entries[i]).name@ == name {
            let i = choose|i: int| 0 <= i < entries.len() && (#[trigger] entries[i]).name@ == name;
            if i < entries.len() - 1 {
                assert(entries.drop_last()[i].name@ == name);
            }
        }
    }
}

} // verus!
