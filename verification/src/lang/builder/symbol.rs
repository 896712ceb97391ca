use vstd::prelude::*;

verus! {

/// Where a name lives: the n-th argument or the n-th local of a function.
#[derive(Clone, Copy, PartialEq, Eq, Structural, Debug)]
pub enum SymbolType {
    Arg(usize),
    Local(usize),
}

/// The mathematical state of a [`SymbolTable`].
pub struct SymState {
    pub names: Map<Seq<char>, SymbolType>,
    pub counter: nat,
    pub arg_mode: bool,
}

/// Looking a name up: its symbol and the state after, or `None` when a new
/// name would overflow the counter.
pub open spec fn sym_get(st: SymState, name: Seq<char>) -> Option<(SymbolType, SymState)> {
    if st.names.contains_key(name) {
        Some((st.names[name], st))
    } else if st.counter < usize::MAX {
        let t = if st.arg_mode {
            SymbolType::Arg(st.counter as usize)
        } else {
            SymbolType::Local(st.counter as usize)
        };
        Some((t, SymState { names: st.names.insert(name, t), counter: st.counter + 1, arg_mode: st.arg_mode }))
    } else {
        None
    }
}

/// Gives each name an index the first time it is seen, and the same index
/// every time after. New names become arguments or locals depending on the
/// mode, numbered by a counter.
pub struct SymbolTable {
    table: Vec<(String, SymbolType)>,
    counter: usize,
    mode: SymbolType,
    names: Ghost<Map<Seq<char>, SymbolType>>,
}

impl View for SymbolTable {
    type V = Map<Seq<char>, SymbolType>;

    closed spec fn view(&self) -> Map<Seq<char>, SymbolType> {
        self.names@
    }
}

impl SymbolTable {
    pub closed spec fn wf(&self) -> bool {
        &&& forall|i: int|
            0 <= i < self.table@.len() ==> #[trigger] self.names@.contains_key(self.table@[i].0@)
                && self.names@[self.table@[i].0@] == self.table@[i].1
        &&& forall|k: Seq<char>|
            #[trigger] self.names@.contains_key(k) ==> exists|i: int|
                0 <= i < self.table@.len() && self.table@[i].0@ == k
    }

    /// The number the next new name gets.
    pub closed spec fn counter(&self) -> nat {
        self.counter as nat
    }

    /// Whether new names become arguments (else locals).
    pub closed spec fn arg_mode(&self) -> bool {
        self.mode is Arg
    }

    /// The names are numbered in the order they were first looked up (see
    /// [`sym_numbered`]).
    pub open spec fn numbered(&self) -> bool {
        sym_numbered(self.state())
    }

    pub open spec fn state(&self) -> SymState {
        SymState { names: self@, counter: self.counter(), arg_mode: self.arg_mode() }
    }

    /// What a name seen for the first time becomes.
    pub open spec fn fresh(&self) -> SymbolType {
        if self.arg_mode() {
            SymbolType::Arg(self.counter() as usize)
        } else {
            SymbolType::Local(self.counter() as usize)
        }
    }

    pub fn new() -> (r: SymbolTable)
        ensures
            r.wf(),
            r.numbered(),
            r@ == Map::<Seq<char>, SymbolType>::empty(),
            r.counter() == 0,
            !r.arg_mode(),
    {
        let r = SymbolTable {
            table: Vec::new(),
            counter: 0,
            mode: SymbolType::Local(0),
            names: Ghost(Map::empty()),
        };
        assert(r@.dom() =~= Set::<Seq<char>>::empty());
        r
    }

    pub fn set_arg_mode(&mut self)
        ensures
            final(self)@ == old(self)@,
            old(self).wf() ==> final(self).wf(),
            old(self).numbered() ==> final(self).numbered(),
            final(self).counter() == old(self).counter(),
            final(self).arg_mode(),
    {
        self.mode = SymbolType::Arg(0);
        assert(self.table@ == old(self).table@ && self.names@ == old(self).names@);
    }

    pub fn set_local_mode(&mut self)
        ensures
            final(self)@ == old(self)@,
            old(self).wf() ==> final(self).wf(),
            old(self).numbered() ==> final(self).numbered(),
            final(self).counter() == old(self).counter(),
            !final(self).arg_mode(),
    {
        self.mode = SymbolType::Local(0);
        assert(self.table@ == old(self).table@ && self.names@ == old(self).names@);
    }

    pub fn set_counter(&mut self, counter: usize)
        ensures
            final(self)@ == old(self)@,
            old(self).wf() ==> final(self).wf(),
            final(self).counter() == counter,
            final(self).arg_mode() == old(self).arg_mode(),
            old(self).numbered() && counter == old(self).counter() ==> final(self).numbered(),
    {
        self.counter = counter;
        assert(self.table@ == old(self).table@ && self.names@ == old(self).names@);
    }

    /// The symbol of `name`: the one it already has, or else a new one,
    /// which is recorded and moves the counter on.
    pub fn get(&mut self, name: &str) -> (r: SymbolType)
        requires
            old(self).wf(),
            !old(self)@.contains_key(name@) ==> old(self).counter() < usize::MAX,
        ensures
            final(self).wf(),
            old(self).numbered() ==> final(self).numbered(),
            old(self).numbered() && !old(self)@.contains_key(name@) ==> sym_index(r) == old(self)@.dom().len(),
            final(self).arg_mode() == old(self).arg_mode(),
            old(self)@.contains_key(name@) ==> {
                &&& r == old(self)@[name@]
                &&& final(self)@ == old(self)@
                &&& final(self).counter() == old(self).counter()
            },
            !old(self)@.contains_key(name@) ==> {
                &&& r == old(self).fresh()
                &&& final(self)@ == old(self)@.insert(name@, r)
                &&& final(self).counter() == old(self).counter() + 1
            },
            sym_get(old(self).state(), name@) == Some((r, final(self).state())),
    {
        let key = name.to_string();
        proof {
            broadcast use vstd::string::group_string_axioms;
        }
        assert(key@ == name@);
        let mut i: usize = 0;
        while i < self.table.len()
            invariant
                i <= self.table@.len(),
                forall|j: int| 0 <= j < i ==> self.table@[j].0@ != key@,
                self.wf(),
                self == old(self),
                key@ == name@,
            decreases self.table.len() - i,
        {
            if self.table[i].0 == key {
                proof {
                    if old(self).numbered() {
                        law_symbols_distinct(old(self).state(), name@);
                    }
                }
                return self.table[i].1;
            }
            i = i + 1;
        }
        assert(!self@.contains_key(key@));
        let symbol_type = match self.mode {
            SymbolType::Arg(_) => SymbolType::Arg(self.counter),
            SymbolType::Local(_) => SymbolType::Local(self.counter),
        };
        let ghost old_table = self.table@;
        self.table.push((key, symbol_type));
        self.names = Ghost(self.names@.insert(name@, symbol_type));
        self.counter = self.counter + 1;
        proof {
            assert forall|k: Seq<char>| #[trigger] self.names@.contains_key(k) implies exists|j: int|
                0 <= j < self.table@.len() && self.table@[j].0@ == k by {
                if k != name@ {
                    assert(old(self).names@.contains_key(k));
                    let j = choose|j: int| 0 <= j < old_table.len() && old_table[j].0@ == k;
                    assert(self.table@[j] == old_table[j]);
                } else {
                    assert(self.table@[old_table.len() as int].0@ == k);
                }
            }
            assert forall|j: int| 0 <= j < self.table@.len() implies #[trigger] self.names@.contains_key(
                self.table@[j].0@,
            ) && self.names@[self.table@[j].0@] == self.table@[j].1 by {
                if j < old_table.len() {
                    assert(self.table@[j] == old_table[j]);
                    assert(old(self).names@.contains_key(old_table[j].0@));
                }
            }
            if old(self).numbered() {
                law_symbols_distinct(old(self).state(), name@);
            }
        }
        symbol_type
    }
}

/// The number of a symbol.
pub open spec fn sym_index(t: SymbolType) -> int {
    match t {
        SymbolType::Arg(i) => i as int,
        SymbolType::Local(i) => i as int,
    }
}

/// No two names share a symbol.
pub open spec fn sym_distinct(st: SymState) -> bool {
    forall|a: Seq<char>, b: Seq<char>|
        #![trigger st.names[a], st.names[b]]
        st.names.contains_key(a) && st.names.contains_key(b) && a != b ==> st.names[a] != st.names[b]
}

/// Every symbol is numbered below the counter.
pub open spec fn sym_below(st: SymState) -> bool {
    forall|a: Seq<char>| #[trigger] st.names.contains_key(a) ==> sym_index(st.names[a]) < st.counter
}

/// Looking a name up a second time gives the symbol of the first time and
/// changes nothing.
pub proof fn law_symbol_lookup_stable(st: SymState, name: Seq<char>)
    ensures
        sym_get(st, name) matches Some((t, st2)) ==> sym_get(st2, name) == Some((t, st2)),
{
}

/// The names are numbered 0, 1, 2, ... in the order they were first looked
/// up: finitely many, each with its own number, all below the counter,
/// which is the number of names.
pub open spec fn sym_numbered(st: SymState) -> bool {
    &&& st.names.dom().finite()
    &&& st.counter == st.names.dom().len()
    &&& sym_below(st)
    &&& forall|a: Seq<char>, b: Seq<char>|
        #![trigger st.names[a], st.names[b]]
        st.names.contains_key(a) && st.names.contains_key(b) && a != b ==> sym_index(st.names[a])
            != sym_index(st.names[b])
}

/// Looking names up keeps them numbered in the order they were first seen:
/// a new name gets the number of names seen before it, and no two names
/// ever share a number (nor, so, a symbol).
pub proof fn law_symbols_distinct(st: SymState, name: Seq<char>)
    requires
        sym_numbered(st),
    ensures
        sym_get(st, name) matches Some((t, st2)) ==> {
            &&& sym_numbered(st2)
            &&& sym_distinct(st2)
            &&& !st.names.contains_key(name) ==> sym_index(t) == st.names.dom().len()
        },
{
    if let Some((t, st2)) = sym_get(st, name) {
        if !st.names.contains_key(name) {
            assert(st2.names.dom() =~= st.names.dom().insert(name));
            assert forall|a: Seq<char>, b: Seq<char>|
                st2.names.contains_key(a) && st2.names.contains_key(b) && a != b implies
                sym_index(#[trigger] st2.names[a]) != sym_index(#[trigger] st2.names[b]) by {
                if a != name && b != name {
                    assert(sym_index(st.names[a]) != sym_index(st.names[b]));
                } else if a == name {
                    assert(sym_index(st.names[b]) < st.counter);
                } else {
                    assert(sym_index(st.names[a]) < st.counter);
                }
            }
            assert forall|a: Seq<char>| #[trigger] st2.names.contains_key(a) implies sym_index(
                st2.names[a],
            ) < st2.counter by {
                if a != name {
                    assert(sym_index(st.names[a]) < st.counter);
                }
            }
        }
        assert forall|a: Seq<char>, b: Seq<char>|
            st2.names.contains_key(a) && st2.names.contains_key(b) && a != b implies
            #[trigger] st2.names[a] != #[trigger] st2.names[b] by {
            assert(sym_index(st2.names[a]) != sym_index(st2.names[b]));
        }
    }
}

} // verus!
