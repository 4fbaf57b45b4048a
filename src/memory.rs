use vstd::prelude::*;

verus! {

/// Contiguous section of memory, placed at a base address.
pub struct Section {
    address: usize,
    memory: Vec<u8>,
}

impl Section {
    /// The first address that the section covers.
    pub closed spec fn base(&self) -> int {
        self.address as int
    }

    /// The bytes of the section, in address order.
    pub closed spec fn bytes(&self) -> Seq<u8> {
        self.memory@
    }

    pub fn len(&self) -> (r: usize)
        ensures
            r == self.bytes().len(),
    {
        self.memory.len()
    }

    pub fn address(&self) -> (r: usize)
        ensures
            r == self.base(),
    {
        self.address
    }

    pub fn from_raw(address: usize, raw: Vec<u8>) -> (r: Section)
        ensures
            r.base() == address,
            r.bytes() == raw@,
    {
        Section { address, memory: raw }
    }
}


/// Whether the section holds a byte for address `a`.
pub open spec fn covers(s: Section, a: int) -> bool {
    s.base() <= a < s.base() + s.bytes().len()
}

/// Whether two sections claim a common address.
pub open spec fn overlap(s: Section, t: Section) -> bool {
    s.base() < t.base() + t.bytes().len() && t.base() < s.base() + s.bytes().len()
}

/// Whether every address of the section fits in a `usize`.
pub open spec fn addressable(s: Section) -> bool {
    s.base() + s.bytes().len() <= usize::MAX + 1
}

/// Group of sections, kept in ascending order of base address.
pub struct Layout {
    sections: Vec<Section>,
}

impl Layout {
    /// The sections, in the order in which they are kept.
    pub closed spec fn sections(&self) -> Seq<Section> {
        self.sections@
    }

    /// Sections ascend by base address, no two of them overlap, and each lies
    /// within the address range of a `usize`.
    pub open spec fn wf(&self) -> bool {
        let s = self.sections();
        &&& forall|i: int, j: int|
            0 <= i < j < s.len() ==> (#[trigger] s[i]).base() <= (#[trigger] s[j]).base() && !overlap(
                s[i],
                s[j],
            )
        &&& forall|i: int| 0 <= i < s.len() ==> addressable(#[trigger] s[i])
    }

    /// Whether some section holds a byte for address `a`.
    pub open spec fn contains(&self, a: int) -> bool {
        exists|i: int| 0 <= i < self.sections().len() && covers(#[trigger] self.sections()[i], a)
    }

    /// The byte at address `a`, for an address that the layout contains.
    pub open spec fn byte_at(&self, a: int) -> u8 {
        let s = self.sections();
        let i = choose|i: int| 0 <= i < s.len() && covers(#[trigger] s[i], a);
        s[i].bytes()[a - s[i].base()]
    }

    /// `n` is how many consecutive addresses, from `start` on and at most
    /// `limit` of them, the layout holds bytes for.
    pub open spec fn is_run(&self, start: int, limit: int, n: int) -> bool {
        &&& 0 <= n <= limit
        &&& forall|a: int| start <= a < start + n ==> self.contains(a)
        &&& n < limit ==> !self.contains(start + n)
    }

    /// Covering sections are unique in a well-formed layout, so each address
    /// reads the byte of the one section that holds it.
    pub proof fn lemma_byte_of_section(&self, i: int, a: int)
        requires
            self.wf(),
            0 <= i < self.sections().len(),
            covers(self.sections()[i], a),
        ensures
            self.contains(a),
            self.byte_at(a) == self.sections()[i].bytes()[a - self.sections()[i].base()],
    {
        let s = self.sections();
        assert(covers(s[i], a));
        let j = choose|j: int| 0 <= j < s.len() && covers(#[trigger] s[j], a);
        if i < j {
            assert(!overlap(s[i], s[j]));
        } else if j < i {
            assert(!overlap(s[j], s[i]));
        }
    }

    pub fn new() -> (r: Layout)
        ensures
            r.wf(),
            r.sections() == Seq::<Section>::empty(),
    {
        Layout { sections: Vec::new() }
    }

    /// Finds the index of the section that holds address `a`.
    fn find_section(&self, address: usize) -> (r: Option<usize>)
        requires
            self.wf(),
        ensures
            r.is_none() <==> !self.contains(address as int),
            r matches Some(i) ==> i < self.sections().len() && covers(
                self.sections()[i as int],
                address as int,
            ),
    {
        let mut i: usize = 0;
        while i < self.sections.len()
            invariant
                i <= self.sections@.len(),
                forall|j: int| 0 <= j < i ==> !covers(#[trigger] self.sections@[j], address as int),
            decreases self.sections@.len() - i,
        {
            let s = &self.sections[i];
            if s.address <= address && address - s.address < s.memory.len() {
                assert(covers(self.sections()[i as int], address as int));
                return Some(i);
            }
            i += 1;
        }
        None
    }

    /// Inserts a section before the first one whose base address is greater,
    /// and hands back the inserted section.
    pub fn add_section(&mut self, section: Section) -> (r: &mut Section)
        requires
            old(self).wf(),
            addressable(section),
            forall|j: int|
                0 <= j < old(self).sections().len() ==> !overlap(
                    #[trigger] old(self).sections()[j],
                    section,
                ),
        ensures
            *r == section,
            exists|i: int|
                0 <= i <= old(self).sections().len() && final(self).sections() == old(
                    self,
                ).sections().insert(i, *final(r)) && (forall|j: int|
                    0 <= j < i ==> (#[trigger] old(self).sections()[j]).base() <= section.base())
                    && (forall|j: int|
                    i <= j < old(self).sections().len() ==> (#[trigger] old(
                        self,
                    ).sections()[j]).base() > section.base()),
            *final(r) == section ==> final(self).wf(),
    {
        let ghost s0 = self.sections@;
        assert(s0 == old(self).sections());
        let mut i: usize = 0;
        while i < self.sections.len() && self.sections[i].address <= section.address
            invariant
                self.sections@ == s0,
                i <= s0.len(),
                forall|j: int| 0 <= j < i ==> (#[trigger] s0[j]).base() <= section.base(),
            decreases s0.len() - i,
        {
            i += 1;
        }
        assert(forall|j: int| i <= j < s0.len() ==> (#[trigger] s0[j]).base() > section.base()) by {
            assert forall|j: int| i <= j < s0.len() implies (#[trigger] s0[j]).base() > section.base() by {
                if j > i {
                    assert(s0[i as int].base() <= s0[j].base());
                }
            }
        }
        self.sections.insert(i, section);
        let ghost s1 = self.sections@;
        assert(s1 == s0.insert(i as int, section));
        assert forall|a: int, b: int| 0 <= a < b < s1.len() implies s1[a].base() <= s1[b].base()
            && !overlap(s1[a], s1[b]) by {
            if a < i && b < i {
                assert(s1[a] == s0[a] && s1[b] == s0[b]);
            } else if a < i && b == i {
                assert(s1[a] == s0[a]);
                assert(!overlap(old(self).sections()[a], section));
            } else if a < i {
                assert(s1[a] == s0[a] && s1[b] == s0[b - 1]);
            } else if a == i {
                assert(s1[b] == s0[b - 1]);
                assert(!overlap(old(self).sections()[b - 1], section));
            } else {
                assert(s1[a] == s0[a - 1] && s1[b] == s0[b - 1]);
            }
        }
        assert forall|a: int| 0 <= a < s1.len() implies addressable(#[trigger] s1[a]) by {
            if a < i {
                assert(s1[a] == s0[a]);
            } else if a > i {
                assert(s1[a] == s0[a - 1]);
            }
        }
        assert forall|x: Section| #[trigger] s1.update(i as int, x) == s0.insert(i as int, x) by {
            assert(s1.update(i as int, x) =~= s0.insert(i as int, x));
        }
        assert(s1.update(i as int, section) == s1);
        &mut self.sections[i]
    }

    /// Reads memory at the address into the buffer, going on into the next
    /// section where it begins right at the end of the previous one. Returns
    /// the number of bytes written, which falls short of the buffer's length
    /// where an address without a section is reached.
    pub fn read_memory(&self, start_address: usize, start_buffer: &mut [u8]) -> (r: usize)
        requires
            self.wf(),
        ensures
            self.is_run(start_address as int, old(start_buffer)@.len() as int, r as int),
            final(start_buffer)@.len() == old(start_buffer)@.len(),
            forall|k: int|
                0 <= k < r ==> #[trigger] final(start_buffer)@[k] == self.byte_at(
                    start_address + k,
                ),
            forall|k: int|
                r <= k < old(start_buffer)@.len() ==> #[trigger] final(start_buffer)@[k] == old(
                    start_buffer,
                )@[k],
    {
        let ghost orig = start_buffer@;
        let mut n: usize = 0;
        let mut stop = false;
        while n < start_buffer.len() && !stop
            invariant
                self.wf(),
                n <= orig.len(),
                start_buffer@.len() == orig.len(),
                forall|a: int| start_address <= a < start_address + n ==> self.contains(a),
                stop ==> !self.contains(start_address + n),
                forall|k: int|
                    0 <= k < n ==> #[trigger] start_buffer@[k] == self.byte_at(start_address + k),
                forall|k: int| n <= k < orig.len() ==> #[trigger] start_buffer@[k] == orig[k],
            decreases orig.len() - n + (if stop { 0int } else { 1int }),
        {
            if n > usize::MAX - start_address {
                stop = true;
                proof {
                    let a = start_address + n;
                    if self.contains(a) {
                        let i = choose|i: int|
                            0 <= i < self.sections().len() && covers(
                                #[trigger] self.sections()[i],
                                a,
                            );
                        assert(addressable(self.sections()[i]));
                    }
                }
            } else {
                let address = start_address + n;
                match self.find_section(address) {
                    None => {
                        stop = true;
                    },
                    Some(i) => {
                        let s = &self.sections[i];
                        proof {
                            self.lemma_byte_of_section(i as int, address as int);
                        }
                        start_buffer[n] = s.memory[address - s.address];
                        n += 1;
                    },
                }
            }
        }
        n
    }

    /// Finds the section that holds the address, if there is one.
    pub fn get_section_at(&self, address: usize) -> (r: Option<&Section>)
        requires
            self.wf(),
        ensures
            r.is_none() <==> !self.contains(address as int),
            r matches Some(s) ==> covers(*s, address as int) && self.sections().contains(*s),
    {
        match self.find_section(address) {
            Some(i) => {
                let s = &self.sections[i];
                assert(self.sections@[i as int] == *s);
                Some(s)
            },
            None => None,
        }
    }
}


/// A layout without sections holds no byte, so a read from it, at any address
/// and into a buffer of any length, writes nothing.
pub proof fn lemma_empty_layout_reads_nothing(l: &Layout, start: int, limit: int, n: int)
    requires
        l.sections().len() == 0,
        l.is_run(start, limit, n),
    ensures
        n == 0,
        forall|a: int| !l.contains(a),
{
    if n > 0 {
        assert(l.contains(start));
    }
}

/// A layout whose one section holds a single byte holds a byte at that
/// section's base address and at no other.
pub proof fn lemma_single_byte_section(l: &Layout, s: Section)
    requires
        l.sections() == seq![s],
        s.bytes().len() == 1,
    ensures
        forall|a: int| l.contains(a) <==> a == s.base(),
{
    assert forall|a: int| l.contains(a) <==> a == s.base() by {
        if a == s.base() {
            assert(covers(l.sections()[0], a));
        }
    }
}

/// A read that starts at the first of two sections, where the second begins
/// right at the end of the first, fills the whole buffer (up to the end of
/// the second) with the bytes of the first followed by those of the second.
pub proof fn lemma_contiguous_read(l: &Layout, s1: Section, s2: Section, limit: int, n: int)
    requires
        l.wf(),
        l.sections() == seq![s1, s2],
        s2.base() == s1.base() + s1.bytes().len(),
        0 <= limit <= s1.bytes().len() + s2.bytes().len(),
        l.is_run(s1.base(), limit, n),
    ensures
        n == limit,
        forall|k: int| 0 <= k < n ==> l.byte_at(s1.base() + k) == (s1.bytes() + s2.bytes())[k],
{
    let secs = l.sections();
    if n < limit {
        let a = s1.base() + n;
        if n < s1.bytes().len() {
            assert(covers(secs[0], a));
        } else {
            assert(covers(secs[1], a));
        }
    }
    assert forall|k: int| 0 <= k < n implies l.byte_at(s1.base() + k) == (s1.bytes()
        + s2.bytes())[k] by {
        let a = s1.base() + k;
        if k < s1.bytes().len() {
            l.lemma_byte_of_section(0, a);
        } else {
            l.lemma_byte_of_section(1, a);
        }
    }
}

/// A read that starts at the first of two sections, where a gap lies between
/// them, stops at the gap: it writes the bytes of the first section, or as
/// many of them as the buffer takes.
pub proof fn lemma_gap_read(l: &Layout, s1: Section, s2: Section, limit: int, n: int)
    requires
        l.wf(),
        l.sections() == seq![s1, s2],
        s2.base() > s1.base() + s1.bytes().len(),
        l.is_run(s1.base(), limit, n),
    ensures
        n == if limit < s1.bytes().len() { limit } else { s1.bytes().len() as int },
        forall|k: int| 0 <= k < n ==> l.byte_at(s1.base() + k) == s1.bytes()[k],
{
    let secs = l.sections();
    let end = s1.base() + s1.bytes().len();
    assert(!l.contains(end)) by {
        if l.contains(end) {
            let i = choose|i: int| 0 <= i < secs.len() && covers(#[trigger] secs[i], end);
            assert(i == 0 || i == 1);
        }
    }
    if n > s1.bytes().len() {
        assert(l.contains(end));
    }
    if n < limit && n < s1.bytes().len() {
        assert(covers(secs[0], s1.base() + n));
    }
    assert forall|k: int| 0 <= k < n implies l.byte_at(s1.base() + k) == s1.bytes()[k] by {
        l.lemma_byte_of_section(0, s1.base() + k);
    }
}

} // verus!
