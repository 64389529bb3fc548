//! Pointer chains and their resolution against a foreign address space.
//!
//! A chain is an ordered list of byte offsets dereferenced in sequence
//! from a base address, plus a trailing offset added without a final
//! dereference.  The address space is modelled as a partial map from
//! address to the pointer-width value stored there; addresses outside
//! the map are unreadable, and any unreadable hop aborts the whole
//! resolution.  Address arithmetic wraps at the pointer width.
//!
//! The reads themselves are foreign-process work that this library does
//! not perform: `ChainWalk` asks for one read at a time and is fed the
//! outcome, so the same machine runs against live memory and against
//! `MockMemory`.

use vstd::prelude::*;

verus! {

/// One pointer chain of the offsets catalogue.
pub struct PointerChain {
    pub offsets: Vec<u64>,
    pub final_offset: u64,
}

/// The mathematical content of a chain.
#[verifier::ext_equal]
pub ghost struct ChainModel {
    pub offsets: Seq<u64>,
    pub final_offset: u64,
}

impl View for PointerChain {
    type V = ChainModel;

    open spec fn view(&self) -> ChainModel {
        ChainModel { offsets: self.offsets@, final_offset: self.final_offset }
    }
}

/// Pointer-width addition, wrapping at 2^64.
pub open spec fn wrap_add(a: u64, b: u64) -> u64 {
    ((a + b) % 0x1_0000_0000_0000_0000) as u64
}

/// One hop: read the pointer-width value at `addr + offset`, or fail if
/// that address is unreadable.
pub open spec fn hop(mem: Map<u64, u64>, addr: u64, offset: u64) -> Option<u64> {
    let a = wrap_add(addr, offset);
    if mem.dom().contains(a) {
        Some(mem[a])
    } else {
        None
    }
}

/// Resolution continued from hop `i` with current address `addr`.
pub open spec fn resolve_from(mem: Map<u64, u64>, addr: u64, chain: ChainModel, i: int) -> Option<
    u64,
>
    decreases chain.offsets.len() - i,
{
    if i < 0 || i >= chain.offsets.len() {
        Some(wrap_add(addr, chain.final_offset))
    } else {
        match hop(mem, addr, chain.offsets[i]) {
            Some(next) => resolve_from(mem, next, chain, i + 1),
            None => None,
        }
    }
}

/// The address a chain resolves to from `base`: the iterated
/// dereference of every offset, then the final offset added, or nothing
/// exactly when some hop is unreadable.
pub open spec fn resolve_addr(mem: Map<u64, u64>, base: u64, chain: ChainModel) -> Option<u64> {
    resolve_from(mem, base, chain, 0)
}

/// Wrapping add on addresses, the executable twin of `wrap_add`.
pub fn addr_add(a: u64, b: u64) -> (r: u64)
    ensures
        r == wrap_add(a, b),
{
    a.wrapping_add(b)
}

fn copy_offsets(v: &Vec<u64>) -> (r: Vec<u64>)
    ensures
        r@ == v@,
{
    let mut r: Vec<u64> = Vec::new();
    let mut i: usize = 0;
    while i < v.len()
        invariant
            i <= v.len(),
            r@ == v@.take(i as int),
        decreases v.len() - i,
    {
        proof {
            assert(v@.take(i + 1 as int) =~= v@.take(i as int).push(v@[i as int]));
        }
        r.push(v[i]);
        i = i + 1;
    }
    proof {
        assert(v@.take(v@.len() as int) =~= v@);
    }
    r
}

/// Walks one chain hop by hop.  The caller performs each requested read
/// of the foreign address space and feeds the outcome back.
pub struct ChainWalk {
    offsets: Vec<u64>,
    final_offset: u64,
    pos: usize,
    addr: u64,
    failed: bool,
}

impl ChainWalk {
    /// The chain being walked.
    pub closed spec fn chain(&self) -> ChainModel {
        ChainModel { offsets: self.offsets@, final_offset: self.final_offset }
    }

    /// How many hops have been taken.
    pub closed spec fn pos(&self) -> int {
        self.pos as int
    }

    /// The current intermediate address.
    pub closed spec fn addr(&self) -> u64 {
        self.addr
    }

    /// Whether some hop was unreadable.
    pub closed spec fn has_failed(&self) -> bool {
        self.failed
    }

    pub open spec fn wf(&self) -> bool {
        0 <= self.pos() <= self.chain().offsets.len()
    }

    /// A read is still wanted.
    pub open spec fn is_pending(&self) -> bool {
        !self.has_failed() && self.pos() < self.chain().offsets.len()
    }

    pub fn new(base: u64, chain: &PointerChain) -> (w: Self)
        ensures
            w.wf(),
            w.chain() == chain@,
            w.pos() == 0,
            w.addr() == base,
            !w.has_failed(),
    {
        let w = ChainWalk {
            offsets: copy_offsets(&chain.offsets),
            final_offset: chain.final_offset,
            pos: 0,
            addr: base,
            failed: false,
        };
        proof {
            assert(w.chain() =~= chain@);
        }
        w
    }

    /// The address whose pointer-width value is wanted next, if any.
    pub fn next_read(&self) -> (a: Option<u64>)
        requires
            self.wf(),
        ensures
            a == if self.is_pending() {
                Some(wrap_add(self.addr(), self.chain().offsets[self.pos()]))
            } else {
                None::<u64>
            },
    {
        if !self.failed && self.pos < self.offsets.len() {
            Some(addr_add(self.addr, self.offsets[self.pos]))
        } else {
            None
        }
    }

    /// Feed the outcome of the requested read: the value read, or
    /// nothing if the address was unreadable.
    pub fn feed(&mut self, value: Option<u64>)
        requires
            old(self).wf(),
            old(self).is_pending(),
        ensures
            final(self).wf(),
            final(self).chain() == old(self).chain(),
            match value {
                Some(v) => !final(self).has_failed() && final(self).pos() == old(self).pos() + 1
                    && final(self).addr() == v,
                None => final(self).has_failed() && final(self).pos() == old(self).pos(),
            },
    {
        match value {
            Some(v) => {
                let n = self.offsets.len();
                assert(self.pos < n);
                self.addr = v;
                self.pos = self.pos + 1;
            },
            None => {
                self.failed = true;
            },
        }
    }

    /// The resolved address, present exactly when every hop was fed a
    /// value and the walk is complete.
    pub fn result(&self) -> (r: Option<u64>)
        requires
            self.wf(),
        ensures
            r == if !self.has_failed() && self.pos() == self.chain().offsets.len() {
                Some(wrap_add(self.addr(), self.chain().final_offset))
            } else {
                None::<u64>
            },
    {
        if !self.failed && self.pos == self.offsets.len() {
            Some(addr_add(self.addr, self.final_offset))
        } else {
            None
        }
    }
}

/// Mock foreign memory: a list of (address, value) cells, later entries
/// overriding earlier ones.  Its view is the partial map the resolution
/// specification speaks of.
pub struct MockMemory {
    cells: Vec<(u64, u64)>,
}

pub open spec fn cells_to_map(s: Seq<(u64, u64)>) -> Map<u64, u64>
    decreases s.len(),
{
    if s.len() == 0 {
        Map::empty()
    } else {
        cells_to_map(s.drop_last()).insert(s.last().0, s.last().1)
    }
}

proof fn lemma_cells_agree(s: Seq<(u64, u64)>, k: u64, i: int)
    requires
        0 <= i <= s.len(),
        forall|j: int| i <= j < s.len() ==> (#[trigger] s[j]).0 != k,
    ensures
        cells_to_map(s).dom().contains(k) == cells_to_map(s.take(i)).dom().contains(k),
        cells_to_map(s.take(i)).dom().contains(k) ==> cells_to_map(s)[k] == cells_to_map(
            s.take(i),
        )[k],
    decreases s.len() - i,
{
    if i == s.len() {
        assert(s.take(i) =~= s);
    } else {
        lemma_cells_agree(s, k, i + 1);
        assert(s.take(i + 1).drop_last() =~= s.take(i));
        assert(s.take(i + 1).last() == s[i]);
    }
}

impl View for MockMemory {
    type V = Map<u64, u64>;

    closed spec fn view(&self) -> Map<u64, u64> {
        cells_to_map(self.cells@)
    }
}

impl MockMemory {
    pub fn new() -> (r: Self)
        ensures
            r@ == Map::<u64, u64>::empty(),
    {
        let r = MockMemory { cells: Vec::new() };
        r
    }

    /// Make `addr` readable and hold `value`.
    pub fn set(&mut self, addr: u64, value: u64)
        ensures
            final(self)@ == old(self)@.insert(addr, value),
    {
        self.cells.push((addr, value));
        proof {
            assert(self.cells@.drop_last() =~= old(self).cells@);
        }
    }

    /// One pointer-width read, or nothing if `addr` is unreadable.
    pub fn read(&self, addr: u64) -> (r: Option<u64>)
        ensures
            r == if self@.dom().contains(addr) {
                Some(self@[addr])
            } else {
                None::<u64>
            },
    {
        let ghost s = self.cells@;
        let n = self.cells.len();
        let mut i = n;
        while i > 0
            invariant
                i <= n,
                n == s.len(),
                s == self.cells@,
                forall|j: int| i <= j < s.len() ==> (#[trigger] s[j]).0 != addr,
            decreases i,
        {
            i = i - 1;
            let c = self.cells[i];
            if c.0 == addr {
                proof {
                    assert(s.take(i + 1).drop_last() =~= s.take(i as int));
                    assert(s.take(i + 1).last() == s[i as int]);
                    lemma_cells_agree(s, addr, i + 1);
                }
                return Some(c.1);
            }
        }
        proof {
            lemma_cells_agree(s, addr, 0);
            assert(s.take(0) =~= Seq::<(u64, u64)>::empty());
        }
        None
    }
}

/// Resolution purity: walking a chain against a mock address space
/// yields the iterated dereference of the chain's offsets plus the
/// final offset, and fails exactly when some intermediate read fails.
pub fn resolve_in(mem: &MockMemory, base: u64, chain: &PointerChain) -> (r: Option<u64>)
    ensures
        r == resolve_addr(mem@, base, chain@),
{
    let mut w = ChainWalk::new(base, chain);
    loop
        invariant
            w.wf(),
            w.chain() == chain@,
            !w.has_failed() ==> resolve_from(mem@, w.addr(), chain@, w.pos()) == resolve_addr(
                mem@,
                base,
                chain@,
            ),
            w.has_failed() ==> resolve_addr(mem@, base, chain@) is None,
        decreases chain@.offsets.len() - w.pos() + (if w.has_failed() {
            0int
        } else {
            1int
        }),
    {
        match w.next_read() {
            Some(a) => {
                let v = mem.read(a);
                w.feed(v);
            },
            None => {
                return w.result();
            },
        }
    }
}

} // verus!
