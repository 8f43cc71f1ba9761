//! The root clock tables of an MCU, and the resolution of free-form names.
use vstd::prelude::*;
use crate::clock::RootClock;
use crate::slice::slice_fits;
use crate::text::{all_ascii, ascii_upper, ends_with, has_suffix, to_uppercase, upper_of};

verus! {

/// The suffix of most root clock names.
pub open spec fn clk_root_suffix() -> Seq<char> {
    seq!['_', 'C', 'L', 'K', '_', 'R', 'O', 'O', 'T']
}

/// The suffix of the names of clock outputs.
pub open spec fn out_suffix() -> Seq<char> {
    seq!['_', 'O', 'U', 'T']
}

/// The name that an already uppercased `upper` resolves to among `keys`: the
/// name itself, else the name with `_CLK_ROOT`, else with `_OUT`, where the
/// name does not already end with that suffix.
pub open spec fn resolve(keys: Set<Seq<char>>, upper: Seq<char>) -> Option<Seq<char>> {
    if keys.contains(upper) {
        Some(upper)
    } else if !has_suffix(upper, clk_root_suffix()) && keys.contains(upper + clk_root_suffix()) {
        Some(upper + clk_root_suffix())
    } else if !has_suffix(upper, out_suffix()) && keys.contains(upper + out_suffix()) {
        Some(upper + out_suffix())
    } else {
        None
    }
}

/// The entries with each name taken as its characters.
pub open spec fn view_entries(s: Seq<(String, RootClock)>) -> Seq<(Seq<char>, RootClock)> {
    s.map_values(|e: (String, RootClock)| (e.0@, e.1))
}

/// The map that the entries give, a later entry replacing an earlier one of
/// the same name.
pub open spec fn entries_map(s: Seq<(Seq<char>, RootClock)>) -> Map<Seq<char>, RootClock>
    decreases s.len(),
{
    if s.len() == 0 {
        Map::empty()
    } else {
        entries_map(s.drop_last()).insert(s.last().0, s.last().1)
    }
}

/// No two entries share a name.
pub open spec fn unique_names(s: Seq<(Seq<char>, RootClock)>) -> bool {
    forall|i: int, j: int| 0 <= i < s.len() && 0 <= j < s.len() && i != j ==> s[i].0 != s[j].0
}

pub proof fn lemma_entries_map_dom(s: Seq<(Seq<char>, RootClock)>, k: Seq<char>)
    ensures
        entries_map(s).contains_key(k) <==> exists|i: int| 0 <= i < s.len() && s[i].0 == k,
    decreases s.len(),
{
    if s.len() > 0 {
        lemma_entries_map_dom(s.drop_last(), k);
        if entries_map(s).contains_key(k) && k != s.last().0 {
            let i = choose|i: int| 0 <= i < s.len() - 1 && s.drop_last()[i].0 == k;
            assert(s[i].0 == k);
        }
        if exists|i: int| 0 <= i < s.len() && s[i].0 == k {
            let i = choose|i: int| 0 <= i < s.len() && s[i].0 == k;
            if i < s.len() - 1 {
                assert(s.drop_last()[i].0 == k);
            }
        }
    }
}

pub proof fn lemma_entries_map_index(s: Seq<(Seq<char>, RootClock)>, i: int)
    requires
        unique_names(s),
        0 <= i < s.len(),
    ensures
        entries_map(s).contains_key(s[i].0),
        entries_map(s)[s[i].0] == s[i].1,
    decreases s.len(),
{
    if i < s.len() - 1 {
        let t = s.drop_last();
        assert(unique_names(t));
        lemma_entries_map_index(t, i);
        assert(t[i] == s[i]);
        assert(s.last().0 != s[i].0);
    }
}

proof fn lemma_entries_map_update(s: Seq<(Seq<char>, RootClock)>, j: int, e: (Seq<char>, RootClock))
    requires
        unique_names(s),
        0 <= j < s.len(),
        s[j].0 == e.0,
    ensures
        unique_names(s.update(j, e)),
        entries_map(s.update(j, e)) == entries_map(s).insert(e.0, e.1),
    decreases s.len(),
{
    let u = s.update(j, e);
    assert(unique_names(u)) by {
        assert forall|a: int, b: int|
            0 <= a < u.len() && 0 <= b < u.len() && a != b implies u[a].0 != u[b].0 by {
            assert(u[a].0 == s[a].0);
            assert(u[b].0 == s[b].0);
        }
    }
    if j == s.len() - 1 {
        assert(u.drop_last() =~= s.drop_last());
        assert(entries_map(u) =~= entries_map(s).insert(e.0, e.1));
    } else {
        let t = s.drop_last();
        assert(unique_names(t));
        assert(u.drop_last() =~= t.update(j, e));
        lemma_entries_map_update(t, j, e);
        assert(s.last().0 != e.0);
        assert(u.last() == s.last());
        assert(entries_map(u) =~= entries_map(s).insert(e.0, e.1));
    }
}

/// A valid root clock name: a reference to a name of the table of an
/// [`Imxrt`].
#[derive(Debug, Clone, Copy)]
pub struct RootClockName<'a>(&'a String);

impl<'a> View for RootClockName<'a> {
    type V = Seq<char>;

    closed spec fn view(&self) -> Seq<char> {
        self.0@
    }
}

/// The name that a resolution produced, if any.
pub open spec fn name_of(r: Option<RootClockName>) -> Option<Seq<char>> {
    match r {
        Some(n) => Some(n@),
        None => None,
    }
}

impl<'a> RootClockName<'a> {
    /// The name as a string.
    pub fn as_str(&self) -> (r: &'a str)
        ensures
            r@ == self@,
    {
        self.0.as_str()
    }

    /// The name as an owned string.
    pub fn to_string(&self) -> (r: String)
        ensures
            r@ == self@,
    {
        self.0.clone()
    }
}

/// An i.MX RT MCU: the address of its CCM_OBS block and its table of root
/// clocks, named as in the reference manual.
pub struct Imxrt {
    /// Starting address of the CCM_OBS block.
    ccm_obs: u64,
    /// The root clocks, no two of one name, in the order of first insertion.
    root_clocks: Vec<(String, RootClock)>,
}

impl Imxrt {
    /// The entries of the table, in the order of enumeration.
    pub closed spec fn entries(&self) -> Seq<(Seq<char>, RootClock)> {
        view_entries(self.root_clocks@)
    }

    /// The names of the root clocks, in the order of enumeration.
    pub open spec fn names(&self) -> Seq<Seq<char>> {
        self.entries().map_values(|e: (Seq<char>, RootClock)| e.0)
    }

    /// The root clock that each name stands for.
    pub open spec fn clocks(&self) -> Map<Seq<char>, RootClock> {
        entries_map(self.entries())
    }

    /// Starting address of the CCM_OBS block.
    pub closed spec fn base(&self) -> u64 {
        self.ccm_obs
    }

    /// The table names each root clock once, and each of their slices lies
    /// inside the address space.
    pub closed spec fn wf(&self) -> bool {
        &&& unique_names(self.entries())
        &&& forall|i: int|
            0 <= i < self.root_clocks@.len() ==> slice_fits(
                self.ccm_obs,
                #[trigger] self.root_clocks@[i].1.slice_number,
            )
    }

    /// The names are exactly the keys of the table, each once, and each
    /// root clock's slice lies inside the address space.
    pub proof fn lemma_wf(&self)
        requires
            self.wf(),
        ensures
            forall|k: Seq<char>| self.clocks().contains_key(k) <==> self.names().contains(k),
            forall|i: int, j: int|
                0 <= i < self.names().len() && 0 <= j < self.names().len() && i != j
                    ==> self.names()[i] != self.names()[j],
            forall|k: Seq<char>|
                self.clocks().contains_key(k) ==> slice_fits(
                    self.base(),
                    #[trigger] self.clocks()[k].slice_number,
                ),
    {
        let s = self.entries();
        assert forall|k: Seq<char>| self.clocks().contains_key(k) <==> self.names().contains(k) by {
            lemma_entries_map_dom(s, k);
            if self.names().contains(k) {
                let i = choose|i: int| 0 <= i < self.names().len() && self.names()[i] == k;
                assert(s[i].0 == k);
            }
            if self.clocks().contains_key(k) {
                let i = choose|i: int| 0 <= i < s.len() && s[i].0 == k;
                assert(self.names()[i] == k);
            }
        }
        assert forall|k: Seq<char>| self.clocks().contains_key(k) implies slice_fits(
            self.base(),
            #[trigger] self.clocks()[k].slice_number,
        ) by {
            lemma_entries_map_dom(s, k);
            let i = choose|i: int| 0 <= i < s.len() && s[i].0 == k;
            lemma_entries_map_index(s, i);
            assert(s[i].1 == self.root_clocks@[i].1);
        }
    }

    /// The position of the entry named `key`, if any.
    fn find(&self, key: &String) -> (r: Option<usize>)
        requires
            self.wf(),
        ensures
            match r {
                Some(i) => i < self.root_clocks@.len() && self.root_clocks@[i as int].0@ == key@,
                None => !self.clocks().contains_key(key@),
            },
    {
        let mut i: usize = 0;
        while i < self.root_clocks.len()
            invariant
                i <= self.root_clocks@.len(),
                forall|j: int| 0 <= j < i ==> self.root_clocks@[j].0@ != key@,
            decreases self.root_clocks@.len() - i,
        {
            if self.root_clocks[i].0 == *key {
                return Some(i);
            }
            i = i + 1;
        }
        proof {
            lemma_entries_map_dom(self.entries(), key@);
            if self.clocks().contains_key(key@) {
                let j = choose|j: int| 0 <= j < self.entries().len() && self.entries()[j].0 == key@;
                assert(self.root_clocks@[j].0@ == key@);
            }
        }
        None
    }

    /// A table of root clocks for the CCM_OBS block at `ccm_obs`, as the
    /// entries give it; where two entries share a name, the later one wins,
    /// and where none do, the table holds the entries as given, in order.
    pub fn new(ccm_obs: u64, root_clocks: Vec<(String, RootClock)>) -> (r: Imxrt)
        requires
            forall|i: int|
                0 <= i < root_clocks@.len() ==> slice_fits(
                    ccm_obs,
                    #[trigger] root_clocks@[i].1.slice_number,
                ),
        ensures
            r.wf(),
            r.base() == ccm_obs,
            r.clocks() == entries_map(view_entries(root_clocks@)),
            unique_names(view_entries(root_clocks@)) ==> r.entries() == view_entries(root_clocks@),
    {
        let ghost inp = view_entries(root_clocks@);
        let mut r = Imxrt { ccm_obs, root_clocks: Vec::new() };
        assert(r.entries() =~= inp.subrange(0, 0));
        let mut i: usize = 0;
        while i < root_clocks.len()
            invariant
                inp == view_entries(root_clocks@),
                i <= root_clocks@.len(),
                r.wf(),
                r.ccm_obs == ccm_obs,
                r.clocks() == entries_map(inp.subrange(0, i as int)),
                unique_names(inp.subrange(0, i as int)) ==> r.entries() == inp.subrange(0, i as int),
                forall|j: int|
                    0 <= j < root_clocks@.len() ==> slice_fits(
                        ccm_obs,
                        #[trigger] root_clocks@[j].1.slice_number,
                    ),
            decreases root_clocks@.len() - i,
        {
            let e = (root_clocks[i].0.clone(), root_clocks[i].1);
            let ghost ev = (e.0@, e.1);
            let ghost next = inp.subrange(0, i + 1);
            assert(ev == inp[i as int]);
            assert(next.drop_last() =~= inp.subrange(0, i as int));
            assert(next.last() == ev);
            assert(unique_names(next) ==> unique_names(inp.subrange(0, i as int))) by {
                if unique_names(next) {
                    let pre = inp.subrange(0, i as int);
                    assert forall|a: int, b: int|
                        0 <= a < pre.len() && 0 <= b < pre.len() && a != b implies pre[a].0 != pre[b].0 by {
                        assert(pre[a] == next[a] && pre[b] == next[b]);
                    }
                }
            }
            let ghost before = r.entries();
            match r.find(&e.0) {
                Some(j) => {
                    proof {
                        assert(before[j as int].0 == ev.0);
                        lemma_entries_map_update(before, j as int, ev);
                        lemma_entries_map_dom(before, ev.0);
                        lemma_entries_map_dom(inp.subrange(0, i as int), ev.0);
                        let m = choose|m: int| 0 <= m < i && inp.subrange(0, i as int)[m].0 == ev.0;
                        assert(next[m].0 == next[i as int].0);
                        assert(!unique_names(next));
                    }
                    r.root_clocks.set(j, e);
                    assert(r.entries() =~= before.update(j as int, ev));
                },
                None => {
                    proof {
                        lemma_entries_map_dom(before, ev.0);
                    }
                    r.root_clocks.push(e);
                    assert(r.entries() =~= before.push(ev));
                    assert(r.entries().drop_last() =~= before);
                    assert(unique_names(r.entries())) by {
                        let s2 = r.entries();
                        assert forall|a: int, b: int|
                            0 <= a < s2.len() && 0 <= b < s2.len() && a != b implies s2[a].0 != s2[b].0 by {
                            if a < before.len() && b < before.len() {
                                assert(s2[a] == before[a] && s2[b] == before[b]);
                            } else if a < before.len() {
                                assert(s2[a] == before[a]);
                            } else {
                                assert(s2[b] == before[b]);
                            }
                        }
                    }
                    proof {
                        if unique_names(next) {
                            assert(r.entries() =~= next);
                        }
                    }
                },
            }
            i = i + 1;
        }
        assert(inp.subrange(0, i as int) =~= inp);
        r
    }

    /// Starting address of the CCM_OBS block.
    pub fn ccm_obs(&self) -> (r: u64)
        ensures
            r == self.base(),
    {
        self.ccm_obs
    }

    /// The names of all root clocks of the table, each once.
    pub fn all_root_clock_names(&self) -> (r: Vec<RootClockName<'_>>)
        ensures
            r@.len() == self.names().len(),
            forall|i: int| 0 <= i < r@.len() ==> #[trigger] r@[i]@ == self.names()[i],
    {
        let mut r: Vec<RootClockName<'_>> = Vec::new();
        let mut i: usize = 0;
        while i < self.root_clocks.len()
            invariant
                i <= self.root_clocks@.len(),
                r@.len() == i,
                forall|j: int| 0 <= j < i ==> #[trigger] r@[j]@ == self.names()[j],
            decreases self.root_clocks@.len() - i,
        {
            r.push(RootClockName(&self.root_clocks[i].0));
            i = i + 1;
        }
        r
    }

    /// The name of the table that an already uppercased `upper` resolves to:
    /// `upper` itself, else `upper` with `_CLK_ROOT`, else with `_OUT`.
    pub fn lookup_uppercase(&self, upper: &String) -> (r: Option<RootClockName<'_>>)
        requires
            self.wf(),
        ensures
            name_of(r) == resolve(self.clocks().dom(), upper@),
    {
        if let Some(i) = self.find(upper) {
            proof {
                lemma_entries_map_index(self.entries(), i as int);
            }
            return Some(RootClockName(&self.root_clocks[i].0));
        }
        proof {
            reveal_strlit("_CLK_ROOT");
            reveal_strlit("_OUT");
            assert("_CLK_ROOT"@ =~= clk_root_suffix());
            assert("_OUT"@ =~= out_suffix());
        }
        if !ends_with(upper.as_str(), "_CLK_ROOT") {
            let key = String::from_str(upper.as_str()).concat("_CLK_ROOT");
            if let Some(i) = self.find(&key) {
                proof {
                    lemma_entries_map_index(self.entries(), i as int);
                }
                return Some(RootClockName(&self.root_clocks[i].0));
            }
        }
        if !ends_with(upper.as_str(), "_OUT") {
            let key = String::from_str(upper.as_str()).concat("_OUT");
            if let Some(i) = self.find(&key) {
                proof {
                    lemma_entries_map_index(self.entries(), i as int);
                }
                return Some(RootClockName(&self.root_clocks[i].0));
            }
        }
        None
    }

    /// Resolves a free-form name, in any case and perhaps without its
    /// suffix, to a name of the table.
    pub fn lookup_root_clock(&self, name: &str) -> (r: Option<RootClockName<'_>>)
        requires
            self.wf(),
        ensures
            name_of(r) == resolve(self.clocks().dom(), upper_of(name@)),
            all_ascii(name@) ==> name_of(r) == resolve(
                self.clocks().dom(),
                name@.map_values(|c: char| ascii_upper(c)),
            ),
    {
        let upper = to_uppercase(name);
        self.lookup_uppercase(&upper)
    }

    /// The root clock that `name` stands for.
    pub fn get(&self, name: RootClockName) -> (r: &RootClock)
        requires
            self.wf(),
            self.clocks().contains_key(name@),
        ensures
            *r == self.clocks()[name@],
    {
        let key: &String = name.0;
        let i = self.find(key).unwrap();
        proof {
            lemma_entries_map_index(self.entries(), i as int);
        }
        &self.root_clocks[i].1
    }
}

/// Every enumerated name resolves to itself; where uppercasing leaves the
/// name as it is, so does a lookup of it in any form that uppercases to it.
pub proof fn lemma_names_resolve_to_themselves(m: &Imxrt, i: int)
    requires
        m.wf(),
        0 <= i < m.names().len(),
    ensures
        resolve(m.clocks().dom(), m.names()[i]) == Some(m.names()[i]),
        upper_of(m.names()[i]) == m.names()[i] ==> resolve(
            m.clocks().dom(),
            upper_of(m.names()[i]),
        ) == Some(m.names()[i]),
{
    m.lemma_wf();
    assert(m.names().contains(m.names()[i]));
}

/// Resolution looks at the uppercase form of a name only: two names of the
/// same uppercase form resolve alike.
pub proof fn lemma_resolution_ignores_case(m: &Imxrt, a: Seq<char>, b: Seq<char>)
    requires
        upper_of(a) == upper_of(b),
    ensures
        resolve(m.clocks().dom(), upper_of(a)) == resolve(m.clocks().dom(), upper_of(b)),
{
}

/// A resolved name is a name of the table, and it is the uppercased input,
/// or that with one of the two suffixes added; a name that matches none of
/// the three forms resolves to nothing.
pub proof fn lemma_resolution_sound(keys: Set<Seq<char>>, upper: Seq<char>)
    ensures
        resolve(keys, upper) matches Some(n) ==> keys.contains(n) && (n == upper || n == upper
            + clk_root_suffix() || n == upper + out_suffix()),
        !keys.contains(upper) && !keys.contains(upper + clk_root_suffix()) && !keys.contains(
            upper + out_suffix(),
        ) ==> resolve(keys, upper) is None,
        keys.contains(upper + clk_root_suffix()) && !keys.contains(upper) && !has_suffix(
            upper,
            clk_root_suffix(),
        ) ==> resolve(keys, upper) == Some(upper + clk_root_suffix()),
{
}

/// One entry of a root clock table.
fn root_clock(name: &str, select_index: u32, slice_number: u64) -> (r: (String, RootClock))
    ensures
        r.0@ == name@,
        r.1.select_index == select_index,
        r.1.slice_number == slice_number,
{
    (String::from_str(name), RootClock::new(select_index, slice_number))
}

/// Characters that tell the names of the built-in tables apart.
spec fn fingerprint(s: Seq<char>) -> (int, char, char, char, char, char) {
    (s.len() as int, s[1], s[4], s[5], s[10], s[11])
}

/// The root clocks of the i.MX RT 1170 MCUs, by name, select index and slice.
pub open spec fn imxrt1170_table() -> Seq<(Seq<char>, RootClock)> {
    seq![
        ("BUS_CLK_LPSR_CLK_ROOT"@, RootClock { select_index: 131, slice_number: 0 }),
        ("BUS_CLK_ROOT"@, RootClock { select_index: 130, slice_number: 2 }),
        ("ENET1_CLK_ROOT"@, RootClock { select_index: 179, slice_number: 2 }),
        ("ENET2_CLK_ROOT"@, RootClock { select_index: 180, slice_number: 2 }),
        ("ENET_25M_CLK_ROOT"@, RootClock { select_index: 182, slice_number: 2 }),
        ("ENET_QOS_CLK_ROOT"@, RootClock { select_index: 181, slice_number: 2 }),
        ("ENET_TIMER1_CLK_ROOT"@, RootClock { select_index: 183, slice_number: 2 }),
        ("ENET_TIMER2_CLK_ROOT"@, RootClock { select_index: 184, slice_number: 2 }),
        ("ENET_TIMER3_CLK_ROOT"@, RootClock { select_index: 185, slice_number: 2 }),
        ("M4_CLK_ROOT"@, RootClock { select_index: 129, slice_number: 0 }),
        ("M4_SYSTICK_CLK_ROOT"@, RootClock { select_index: 135, slice_number: 0 }),
        ("M7_CLK_ROOT"@, RootClock { select_index: 128, slice_number: 4 }),
        ("M7_SYSTICK_CLK_ROOT"@, RootClock { select_index: 136, slice_number: 2 }),
        ("OSC_24M_OUT"@, RootClock { select_index: 229, slice_number: 0 }),
        ("OSC_RC_400M"@, RootClock { select_index: 227, slice_number: 0 }),
    ]
}

/// The root clocks of the i.MX RT 1180 MCUs, by name, select index and slice.
pub open spec fn imxrt1180_table() -> Seq<(Seq<char>, RootClock)> {
    seq![
        ("FLEXSPI1_CLK_ROOT"@, RootClock { select_index: 149, slice_number: 0 }),
        ("M33_CLK_ROOT"@, RootClock { select_index: 129, slice_number: 0 }),
        ("OSC_24M_OUT"@, RootClock { select_index: 5, slice_number: 0 }),
        ("OSC_RC_24M"@, RootClock { select_index: 2, slice_number: 0 }),
        ("OSC_RC_400M"@, RootClock { select_index: 3, slice_number: 0 }),
        ("PLL_480_DIV2"@, RootClock { select_index: 16, slice_number: 0 }),
        ("PLL_480_OUT"@, RootClock { select_index: 15, slice_number: 0 }),
        ("PLL_480_PFD0"@, RootClock { select_index: 17, slice_number: 0 }),
        ("PLL_480_PFD1"@, RootClock { select_index: 18, slice_number: 0 }),
        ("PLL_480_PFD2"@, RootClock { select_index: 19, slice_number: 0 }),
        ("PLL_480_PFD3"@, RootClock { select_index: 20, slice_number: 0 }),
    ]
}

/// The names of the i.MX RT 1170 table are distinct.
pub proof fn lemma_imxrt1170_names_distinct()
    ensures
        unique_names(imxrt1170_table()),
{
    let t = imxrt1170_table();
    reveal_strlit("BUS_CLK_LPSR_CLK_ROOT");
    reveal_strlit("BUS_CLK_ROOT");
    reveal_strlit("ENET1_CLK_ROOT");
    reveal_strlit("ENET2_CLK_ROOT");
    reveal_strlit("ENET_25M_CLK_ROOT");
    reveal_strlit("ENET_QOS_CLK_ROOT");
    reveal_strlit("ENET_TIMER1_CLK_ROOT");
    reveal_strlit("ENET_TIMER2_CLK_ROOT");
    reveal_strlit("ENET_TIMER3_CLK_ROOT");
    reveal_strlit("M4_CLK_ROOT");
    reveal_strlit("M4_SYSTICK_CLK_ROOT");
    reveal_strlit("M7_CLK_ROOT");
    reveal_strlit("M7_SYSTICK_CLK_ROOT");
    reveal_strlit("OSC_24M_OUT");
    reveal_strlit("OSC_RC_400M");
    assert(t[0].0 == "BUS_CLK_LPSR_CLK_ROOT"@);
    assert(t[1].0 == "BUS_CLK_ROOT"@);
    assert(t[2].0 == "ENET1_CLK_ROOT"@);
    assert(t[3].0 == "ENET2_CLK_ROOT"@);
    assert(t[4].0 == "ENET_25M_CLK_ROOT"@);
    assert(t[5].0 == "ENET_QOS_CLK_ROOT"@);
    assert(t[6].0 == "ENET_TIMER1_CLK_ROOT"@);
    assert(t[7].0 == "ENET_TIMER2_CLK_ROOT"@);
    assert(t[8].0 == "ENET_TIMER3_CLK_ROOT"@);
    assert(t[9].0 == "M4_CLK_ROOT"@);
    assert(t[10].0 == "M4_SYSTICK_CLK_ROOT"@);
    assert(t[11].0 == "M7_CLK_ROOT"@);
    assert(t[12].0 == "M7_SYSTICK_CLK_ROOT"@);
    assert(t[13].0 == "OSC_24M_OUT"@);
    assert(t[14].0 == "OSC_RC_400M"@);
    assert("BUS_CLK_LPSR_CLK_ROOT"@.len() == 21 && "BUS_CLK_LPSR_CLK_ROOT"@[1] == 'U' && "BUS_CLK_LPSR_CLK_ROOT"@[4] == 'C' && "BUS_CLK_LPSR_CLK_ROOT"@[5] == 'L' && "BUS_CLK_LPSR_CLK_ROOT"@[10] == 'S' && "BUS_CLK_LPSR_CLK_ROOT"@[11] == 'R');
    assert("BUS_CLK_ROOT"@.len() == 12 && "BUS_CLK_ROOT"@[1] == 'U' && "BUS_CLK_ROOT"@[4] == 'C' && "BUS_CLK_ROOT"@[5] == 'L' && "BUS_CLK_ROOT"@[10] == 'O' && "BUS_CLK_ROOT"@[11] == 'T');
    assert("ENET1_CLK_ROOT"@.len() == 14 && "ENET1_CLK_ROOT"@[1] == 'N' && "ENET1_CLK_ROOT"@[4] == '1' && "ENET1_CLK_ROOT"@[5] == '_' && "ENET1_CLK_ROOT"@[10] == 'R' && "ENET1_CLK_ROOT"@[11] == 'O');
    assert("ENET2_CLK_ROOT"@.len() == 14 && "ENET2_CLK_ROOT"@[1] == 'N' && "ENET2_CLK_ROOT"@[4] == '2' && "ENET2_CLK_ROOT"@[5] == '_' && "ENET2_CLK_ROOT"@[10] == 'R' && "ENET2_CLK_ROOT"@[11] == 'O');
    assert("ENET_25M_CLK_ROOT"@.len() == 17 && "ENET_25M_CLK_ROOT"@[1] == 'N' && "ENET_25M_CLK_ROOT"@[4] == '_' && "ENET_25M_CLK_ROOT"@[5] == '2' && "ENET_25M_CLK_ROOT"@[10] == 'L' && "ENET_25M_CLK_ROOT"@[11] == 'K');
    assert("ENET_QOS_CLK_ROOT"@.len() == 17 && "ENET_QOS_CLK_ROOT"@[1] == 'N' && "ENET_QOS_CLK_ROOT"@[4] == '_' && "ENET_QOS_CLK_ROOT"@[5] == 'Q' && "ENET_QOS_CLK_ROOT"@[10] == 'L' && "ENET_QOS_CLK_ROOT"@[11] == 'K');
    assert("ENET_TIMER1_CLK_ROOT"@.len() == 20 && "ENET_TIMER1_CLK_ROOT"@[1] == 'N' && "ENET_TIMER1_CLK_ROOT"@[4] == '_' && "ENET_TIMER1_CLK_ROOT"@[5] == 'T' && "ENET_TIMER1_CLK_ROOT"@[10] == '1' && "ENET_TIMER1_CLK_ROOT"@[11] == '_');
    assert("ENET_TIMER2_CLK_ROOT"@.len() == 20 && "ENET_TIMER2_CLK_ROOT"@[1] == 'N' && "ENET_TIMER2_CLK_ROOT"@[4] == '_' && "ENET_TIMER2_CLK_ROOT"@[5] == 'T' && "ENET_TIMER2_CLK_ROOT"@[10] == '2' && "ENET_TIMER2_CLK_ROOT"@[11] == '_');
    assert("ENET_TIMER3_CLK_ROOT"@.len() == 20 && "ENET_TIMER3_CLK_ROOT"@[1] == 'N' && "ENET_TIMER3_CLK_ROOT"@[4] == '_' && "ENET_TIMER3_CLK_ROOT"@[5] == 'T' && "ENET_TIMER3_CLK_ROOT"@[10] == '3' && "ENET_TIMER3_CLK_ROOT"@[11] == '_');
    assert("M4_CLK_ROOT"@.len() == 11 && "M4_CLK_ROOT"@[1] == '4' && "M4_CLK_ROOT"@[4] == 'L' && "M4_CLK_ROOT"@[5] == 'K' && "M4_CLK_ROOT"@[10] == 'T');
    assert("M4_SYSTICK_CLK_ROOT"@.len() == 19 && "M4_SYSTICK_CLK_ROOT"@[1] == '4' && "M4_SYSTICK_CLK_ROOT"@[4] == 'Y' && "M4_SYSTICK_CLK_ROOT"@[5] == 'S' && "M4_SYSTICK_CLK_ROOT"@[10] == '_' && "M4_SYSTICK_CLK_ROOT"@[11] == 'C');
    assert("M7_CLK_ROOT"@.len() == 11 && "M7_CLK_ROOT"@[1] == '7' && "M7_CLK_ROOT"@[4] == 'L' && "M7_CLK_ROOT"@[5] == 'K' && "M7_CLK_ROOT"@[10] == 'T');
    assert("M7_SYSTICK_CLK_ROOT"@.len() == 19 && "M7_SYSTICK_CLK_ROOT"@[1] == '7' && "M7_SYSTICK_CLK_ROOT"@[4] == 'Y' && "M7_SYSTICK_CLK_ROOT"@[5] == 'S' && "M7_SYSTICK_CLK_ROOT"@[10] == '_' && "M7_SYSTICK_CLK_ROOT"@[11] == 'C');
    assert("OSC_24M_OUT"@.len() == 11 && "OSC_24M_OUT"@[1] == 'S' && "OSC_24M_OUT"@[4] == '2' && "OSC_24M_OUT"@[5] == '4' && "OSC_24M_OUT"@[10] == 'T');
    assert("OSC_RC_400M"@.len() == 11 && "OSC_RC_400M"@[1] == 'S' && "OSC_RC_400M"@[4] == 'R' && "OSC_RC_400M"@[5] == 'C' && "OSC_RC_400M"@[10] == 'M');
    assert forall|i: int, j: int|
        0 <= i < t.len() && 0 <= j < t.len() && i != j implies t[i].0 != t[j].0 by {
        assert(fingerprint(t[i].0) != fingerprint(t[j].0));
    }
}

/// The names of the i.MX RT 1180 table are distinct.
pub proof fn lemma_imxrt1180_names_distinct()
    ensures
        unique_names(imxrt1180_table()),
{
    let t = imxrt1180_table();
    reveal_strlit("FLEXSPI1_CLK_ROOT");
    reveal_strlit("M33_CLK_ROOT");
    reveal_strlit("OSC_24M_OUT");
    reveal_strlit("OSC_RC_24M");
    reveal_strlit("OSC_RC_400M");
    reveal_strlit("PLL_480_DIV2");
    reveal_strlit("PLL_480_OUT");
    reveal_strlit("PLL_480_PFD0");
    reveal_strlit("PLL_480_PFD1");
    reveal_strlit("PLL_480_PFD2");
    reveal_strlit("PLL_480_PFD3");
    assert(t[0].0 == "FLEXSPI1_CLK_ROOT"@);
    assert(t[1].0 == "M33_CLK_ROOT"@);
    assert(t[2].0 == "OSC_24M_OUT"@);
    assert(t[3].0 == "OSC_RC_24M"@);
    assert(t[4].0 == "OSC_RC_400M"@);
    assert(t[5].0 == "PLL_480_DIV2"@);
    assert(t[6].0 == "PLL_480_OUT"@);
    assert(t[7].0 == "PLL_480_PFD0"@);
    assert(t[8].0 == "PLL_480_PFD1"@);
    assert(t[9].0 == "PLL_480_PFD2"@);
    assert(t[10].0 == "PLL_480_PFD3"@);
    assert("FLEXSPI1_CLK_ROOT"@.len() == 17 && "FLEXSPI1_CLK_ROOT"@[1] == 'L' && "FLEXSPI1_CLK_ROOT"@[4] == 'S' && "FLEXSPI1_CLK_ROOT"@[5] == 'P' && "FLEXSPI1_CLK_ROOT"@[10] == 'L' && "FLEXSPI1_CLK_ROOT"@[11] == 'K');
    assert("M33_CLK_ROOT"@.len() == 12 && "M33_CLK_ROOT"@[1] == '3' && "M33_CLK_ROOT"@[4] == 'C' && "M33_CLK_ROOT"@[5] == 'L' && "M33_CLK_ROOT"@[10] == 'O' && "M33_CLK_ROOT"@[11] == 'T');
    assert("OSC_24M_OUT"@.len() == 11 && "OSC_24M_OUT"@[1] == 'S' && "OSC_24M_OUT"@[4] == '2' && "OSC_24M_OUT"@[5] == '4' && "OSC_24M_OUT"@[10] == 'T');
    assert("OSC_RC_24M"@.len() == 10 && "OSC_RC_24M"@[1] == 'S' && "OSC_RC_24M"@[4] == 'R' && "OSC_RC_24M"@[5] == 'C');
    assert("OSC_RC_400M"@.len() == 11 && "OSC_RC_400M"@[1] == 'S' && "OSC_RC_400M"@[4] == 'R' && "OSC_RC_400M"@[5] == 'C' && "OSC_RC_400M"@[10] == 'M');
    assert("PLL_480_DIV2"@.len() == 12 && "PLL_480_DIV2"@[1] == 'L' && "PLL_480_DIV2"@[4] == '4' && "PLL_480_DIV2"@[5] == '8' && "PLL_480_DIV2"@[10] == 'V' && "PLL_480_DIV2"@[11] == '2');
    assert("PLL_480_OUT"@.len() == 11 && "PLL_480_OUT"@[1] == 'L' && "PLL_480_OUT"@[4] == '4' && "PLL_480_OUT"@[5] == '8' && "PLL_480_OUT"@[10] == 'T');
    assert("PLL_480_PFD0"@.len() == 12 && "PLL_480_PFD0"@[1] == 'L' && "PLL_480_PFD0"@[4] == '4' && "PLL_480_PFD0"@[5] == '8' && "PLL_480_PFD0"@[10] == 'D' && "PLL_480_PFD0"@[11] == '0');
    assert("PLL_480_PFD1"@.len() == 12 && "PLL_480_PFD1"@[1] == 'L' && "PLL_480_PFD1"@[4] == '4' && "PLL_480_PFD1"@[5] == '8' && "PLL_480_PFD1"@[10] == 'D' && "PLL_480_PFD1"@[11] == '1');
    assert("PLL_480_PFD2"@.len() == 12 && "PLL_480_PFD2"@[1] == 'L' && "PLL_480_PFD2"@[4] == '4' && "PLL_480_PFD2"@[5] == '8' && "PLL_480_PFD2"@[10] == 'D' && "PLL_480_PFD2"@[11] == '2');
    assert("PLL_480_PFD3"@.len() == 12 && "PLL_480_PFD3"@[1] == 'L' && "PLL_480_PFD3"@[4] == '4' && "PLL_480_PFD3"@[5] == '8' && "PLL_480_PFD3"@[10] == 'D' && "PLL_480_PFD3"@[11] == '3');
    assert forall|i: int, j: int|
        0 <= i < t.len() && 0 <= j < t.len() && i != j implies t[i].0 != t[j].0 by {
        assert(fingerprint(t[i].0) != fingerprint(t[j].0));
    }
}

/// A name is a key of the i.MX RT 1170 table exactly when it is one of
/// these, and each key stands for the root clock of its entry.
pub proof fn lemma_imxrt1170_keys(k: Seq<char>)
    ensures
        entries_map(imxrt1170_table()).contains_key(k) <==> (k == seq!['B', 'U', 'S', '_', 'C', 'L', 'K', '_', 'L', 'P', 'S', 'R', '_', 'C', 'L', 'K', '_', 'R', 'O', 'O', 'T']
            || k == seq!['B', 'U', 'S', '_', 'C', 'L', 'K', '_', 'R', 'O', 'O', 'T']
            || k == seq!['E', 'N', 'E', 'T', '1', '_', 'C', 'L', 'K', '_', 'R', 'O', 'O', 'T']
            || k == seq!['E', 'N', 'E', 'T', '2', '_', 'C', 'L', 'K', '_', 'R', 'O', 'O', 'T']
            || k == seq!['E', 'N', 'E', 'T', '_', '2', '5', 'M', '_', 'C', 'L', 'K', '_', 'R', 'O', 'O', 'T']
            || k == seq!['E', 'N', 'E', 'T', '_', 'Q', 'O', 'S', '_', 'C', 'L', 'K', '_', 'R', 'O', 'O', 'T']
            || k == seq!['E', 'N', 'E', 'T', '_', 'T', 'I', 'M', 'E', 'R', '1', '_', 'C', 'L', 'K', '_', 'R', 'O', 'O', 'T']
            || k == seq!['E', 'N', 'E', 'T', '_', 'T', 'I', 'M', 'E', 'R', '2', '_', 'C', 'L', 'K', '_', 'R', 'O', 'O', 'T']
            || k == seq!['E', 'N', 'E', 'T', '_', 'T', 'I', 'M', 'E', 'R', '3', '_', 'C', 'L', 'K', '_', 'R', 'O', 'O', 'T']
            || k == seq!['M', '4', '_', 'C', 'L', 'K', '_', 'R', 'O', 'O', 'T']
            || k == seq!['M', '4', '_', 'S', 'Y', 'S', 'T', 'I', 'C', 'K', '_', 'C', 'L', 'K', '_', 'R', 'O', 'O', 'T']
            || k == seq!['M', '7', '_', 'C', 'L', 'K', '_', 'R', 'O', 'O', 'T']
            || k == seq!['M', '7', '_', 'S', 'Y', 'S', 'T', 'I', 'C', 'K', '_', 'C', 'L', 'K', '_', 'R', 'O', 'O', 'T']
            || k == seq!['O', 'S', 'C', '_', '2', '4', 'M', '_', 'O', 'U', 'T']
            || k == seq!['O', 'S', 'C', '_', 'R', 'C', '_', '4', '0', '0', 'M']),
        forall|i: int|
            0 <= i < imxrt1170_table().len() ==> entries_map(imxrt1170_table())[#[trigger] imxrt1170_table()[i].0]
                == imxrt1170_table()[i].1,
{
    let t = imxrt1170_table();
    lemma_imxrt1170_names_distinct();
    lemma_entries_map_dom(t, k);
    assert(t[0].0 == "BUS_CLK_LPSR_CLK_ROOT"@);
    assert(t[1].0 == "BUS_CLK_ROOT"@);
    assert(t[2].0 == "ENET1_CLK_ROOT"@);
    assert(t[3].0 == "ENET2_CLK_ROOT"@);
    assert(t[4].0 == "ENET_25M_CLK_ROOT"@);
    assert(t[5].0 == "ENET_QOS_CLK_ROOT"@);
    assert(t[6].0 == "ENET_TIMER1_CLK_ROOT"@);
    assert(t[7].0 == "ENET_TIMER2_CLK_ROOT"@);
    assert(t[8].0 == "ENET_TIMER3_CLK_ROOT"@);
    assert(t[9].0 == "M4_CLK_ROOT"@);
    assert(t[10].0 == "M4_SYSTICK_CLK_ROOT"@);
    assert(t[11].0 == "M7_CLK_ROOT"@);
    assert(t[12].0 == "M7_SYSTICK_CLK_ROOT"@);
    assert(t[13].0 == "OSC_24M_OUT"@);
    assert(t[14].0 == "OSC_RC_400M"@);
    reveal_strlit("BUS_CLK_LPSR_CLK_ROOT");
    assert("BUS_CLK_LPSR_CLK_ROOT"@ =~= seq!['B', 'U', 'S', '_', 'C', 'L', 'K', '_', 'L', 'P', 'S', 'R', '_', 'C', 'L', 'K', '_', 'R', 'O', 'O', 'T']);
    reveal_strlit("BUS_CLK_ROOT");
    assert("BUS_CLK_ROOT"@ =~= seq!['B', 'U', 'S', '_', 'C', 'L', 'K', '_', 'R', 'O', 'O', 'T']);
    reveal_strlit("ENET1_CLK_ROOT");
    assert("ENET1_CLK_ROOT"@ =~= seq!['E', 'N', 'E', 'T', '1', '_', 'C', 'L', 'K', '_', 'R', 'O', 'O', 'T']);
    reveal_strlit("ENET2_CLK_ROOT");
    assert("ENET2_CLK_ROOT"@ =~= seq!['E', 'N', 'E', 'T', '2', '_', 'C', 'L', 'K', '_', 'R', 'O', 'O', 'T']);
    reveal_strlit("ENET_25M_CLK_ROOT");
    assert("ENET_25M_CLK_ROOT"@ =~= seq!['E', 'N', 'E', 'T', '_', '2', '5', 'M', '_', 'C', 'L', 'K', '_', 'R', 'O', 'O', 'T']);
    reveal_strlit("ENET_QOS_CLK_ROOT");
    assert("ENET_QOS_CLK_ROOT"@ =~= seq!['E', 'N', 'E', 'T', '_', 'Q', 'O', 'S', '_', 'C', 'L', 'K', '_', 'R', 'O', 'O', 'T']);
    reveal_strlit("ENET_TIMER1_CLK_ROOT");
    assert("ENET_TIMER1_CLK_ROOT"@ =~= seq!['E', 'N', 'E', 'T', '_', 'T', 'I', 'M', 'E', 'R', '1', '_', 'C', 'L', 'K', '_', 'R', 'O', 'O', 'T']);
    reveal_strlit("ENET_TIMER2_CLK_ROOT");
    assert("ENET_TIMER2_CLK_ROOT"@ =~= seq!['E', 'N', 'E', 'T', '_', 'T', 'I', 'M', 'E', 'R', '2', '_', 'C', 'L', 'K', '_', 'R', 'O', 'O', 'T']);
    reveal_strlit("ENET_TIMER3_CLK_ROOT");
    assert("ENET_TIMER3_CLK_ROOT"@ =~= seq!['E', 'N', 'E', 'T', '_', 'T', 'I', 'M', 'E', 'R', '3', '_', 'C', 'L', 'K', '_', 'R', 'O', 'O', 'T']);
    reveal_strlit("M4_CLK_ROOT");
    assert("M4_CLK_ROOT"@ =~= seq!['M', '4', '_', 'C', 'L', 'K', '_', 'R', 'O', 'O', 'T']);
    reveal_strlit("M4_SYSTICK_CLK_ROOT");
    assert("M4_SYSTICK_CLK_ROOT"@ =~= seq!['M', '4', '_', 'S', 'Y', 'S', 'T', 'I', 'C', 'K', '_', 'C', 'L', 'K', '_', 'R', 'O', 'O', 'T']);
    reveal_strlit("M7_CLK_ROOT");
    assert("M7_CLK_ROOT"@ =~= seq!['M', '7', '_', 'C', 'L', 'K', '_', 'R', 'O', 'O', 'T']);
    reveal_strlit("M7_SYSTICK_CLK_ROOT");
    assert("M7_SYSTICK_CLK_ROOT"@ =~= seq!['M', '7', '_', 'S', 'Y', 'S', 'T', 'I', 'C', 'K', '_', 'C', 'L', 'K', '_', 'R', 'O', 'O', 'T']);
    reveal_strlit("OSC_24M_OUT");
    assert("OSC_24M_OUT"@ =~= seq!['O', 'S', 'C', '_', '2', '4', 'M', '_', 'O', 'U', 'T']);
    reveal_strlit("OSC_RC_400M");
    assert("OSC_RC_400M"@ =~= seq!['O', 'S', 'C', '_', 'R', 'C', '_', '4', '0', '0', 'M']);
    if entries_map(t).contains_key(k) {
        let i = choose|i: int| 0 <= i < t.len() && t[i].0 == k;
        if i == 0 {
        } else if i == 1 {
        } else if i == 2 {
        } else if i == 3 {
        } else if i == 4 {
        } else if i == 5 {
        } else if i == 6 {
        } else if i == 7 {
        } else if i == 8 {
        } else if i == 9 {
        } else if i == 10 {
        } else if i == 11 {
        } else if i == 12 {
        } else if i == 13 {
        } else if i == 14 {
        }
    }
    assert forall|i: int| 0 <= i < t.len() implies entries_map(t)[#[trigger] t[i].0] == t[i].1 by {
        lemma_entries_map_index(t, i);
    }
}

/// A name is a key of the i.MX RT 1180 table exactly when it is one of
/// these, and each key stands for the root clock of its entry.
pub proof fn lemma_imxrt1180_keys(k: Seq<char>)
    ensures
        entries_map(imxrt1180_table()).contains_key(k) <==> (k == seq!['F', 'L', 'E', 'X', 'S', 'P', 'I', '1', '_', 'C', 'L', 'K', '_', 'R', 'O', 'O', 'T']
            || k == seq!['M', '3', '3', '_', 'C', 'L', 'K', '_', 'R', 'O', 'O', 'T']
            || k == seq!['O', 'S', 'C', '_', '2', '4', 'M', '_', 'O', 'U', 'T']
            || k == seq!['O', 'S', 'C', '_', 'R', 'C', '_', '2', '4', 'M']
            || k == seq!['O', 'S', 'C', '_', 'R', 'C', '_', '4', '0', '0', 'M']
            || k == seq!['P', 'L', 'L', '_', '4', '8', '0', '_', 'D', 'I', 'V', '2']
            || k == seq!['P', 'L', 'L', '_', '4', '8', '0', '_', 'O', 'U', 'T']
            || k == seq!['P', 'L', 'L', '_', '4', '8', '0', '_', 'P', 'F', 'D', '0']
            || k == seq!['P', 'L', 'L', '_', '4', '8', '0', '_', 'P', 'F', 'D', '1']
            || k == seq!['P', 'L', 'L', '_', '4', '8', '0', '_', 'P', 'F', 'D', '2']
            || k == seq!['P', 'L', 'L', '_', '4', '8', '0', '_', 'P', 'F', 'D', '3']),
        forall|i: int|
            0 <= i < imxrt1180_table().len() ==> entries_map(imxrt1180_table())[#[trigger] imxrt1180_table()[i].0]
                == imxrt1180_table()[i].1,
{
    let t = imxrt1180_table();
    lemma_imxrt1180_names_distinct();
    lemma_entries_map_dom(t, k);
    assert(t[0].0 == "FLEXSPI1_CLK_ROOT"@);
    assert(t[1].0 == "M33_CLK_ROOT"@);
    assert(t[2].0 == "OSC_24M_OUT"@);
    assert(t[3].0 == "OSC_RC_24M"@);
    assert(t[4].0 == "OSC_RC_400M"@);
    assert(t[5].0 == "PLL_480_DIV2"@);
    assert(t[6].0 == "PLL_480_OUT"@);
    assert(t[7].0 == "PLL_480_PFD0"@);
    assert(t[8].0 == "PLL_480_PFD1"@);
    assert(t[9].0 == "PLL_480_PFD2"@);
    assert(t[10].0 == "PLL_480_PFD3"@);
    reveal_strlit("FLEXSPI1_CLK_ROOT");
    assert("FLEXSPI1_CLK_ROOT"@ =~= seq!['F', 'L', 'E', 'X', 'S', 'P', 'I', '1', '_', 'C', 'L', 'K', '_', 'R', 'O', 'O', 'T']);
    reveal_strlit("M33_CLK_ROOT");
    assert("M33_CLK_ROOT"@ =~= seq!['M', '3', '3', '_', 'C', 'L', 'K', '_', 'R', 'O', 'O', 'T']);
    reveal_strlit("OSC_24M_OUT");
    assert("OSC_24M_OUT"@ =~= seq!['O', 'S', 'C', '_', '2', '4', 'M', '_', 'O', 'U', 'T']);
    reveal_strlit("OSC_RC_24M");
    assert("OSC_RC_24M"@ =~= seq!['O', 'S', 'C', '_', 'R', 'C', '_', '2', '4', 'M']);
    reveal_strlit("OSC_RC_400M");
    assert("OSC_RC_400M"@ =~= seq!['O', 'S', 'C', '_', 'R', 'C', '_', '4', '0', '0', 'M']);
    reveal_strlit("PLL_480_DIV2");
    assert("PLL_480_DIV2"@ =~= seq!['P', 'L', 'L', '_', '4', '8', '0', '_', 'D', 'I', 'V', '2']);
    reveal_strlit("PLL_480_OUT");
    assert("PLL_480_OUT"@ =~= seq!['P', 'L', 'L', '_', '4', '8', '0', '_', 'O', 'U', 'T']);
    reveal_strlit("PLL_480_PFD0");
    assert("PLL_480_PFD0"@ =~= seq!['P', 'L', 'L', '_', '4', '8', '0', '_', 'P', 'F', 'D', '0']);
    reveal_strlit("PLL_480_PFD1");
    assert("PLL_480_PFD1"@ =~= seq!['P', 'L', 'L', '_', '4', '8', '0', '_', 'P', 'F', 'D', '1']);
    reveal_strlit("PLL_480_PFD2");
    assert("PLL_480_PFD2"@ =~= seq!['P', 'L', 'L', '_', '4', '8', '0', '_', 'P', 'F', 'D', '2']);
    reveal_strlit("PLL_480_PFD3");
    assert("PLL_480_PFD3"@ =~= seq!['P', 'L', 'L', '_', '4', '8', '0', '_', 'P', 'F', 'D', '3']);
    if entries_map(t).contains_key(k) {
        let i = choose|i: int| 0 <= i < t.len() && t[i].0 == k;
        if i == 0 {
        } else if i == 1 {
        } else if i == 2 {
        } else if i == 3 {
        } else if i == 4 {
        } else if i == 5 {
        } else if i == 6 {
        } else if i == 7 {
        } else if i == 8 {
        } else if i == 9 {
        } else if i == 10 {
        }
    }
    assert forall|i: int| 0 <= i < t.len() implies entries_map(t)[#[trigger] t[i].0] == t[i].1 by {
        lemma_entries_map_index(t, i);
    }
}

/// The CCM_OBS block of the i.MX RT 1170 MCUs.
pub const IMXRT1170_CCM_OBS: u64 = 0x4015_0000;

/// The CCM_OBS block and root clocks of the i.MX RT 1170 MCUs.
pub fn imxrt1170() -> (r: Imxrt)
    ensures
        r.wf(),
        r.base() == IMXRT1170_CCM_OBS,
        r.entries() == imxrt1170_table(),
        r.names() == imxrt1170_table().map_values(|e: (Seq<char>, RootClock)| e.0),
        r.clocks() == entries_map(imxrt1170_table()),
{
    let root_clocks = vec![
        root_clock("BUS_CLK_LPSR_CLK_ROOT", 131, 0),
        root_clock("BUS_CLK_ROOT", 130, 2),
        root_clock("ENET1_CLK_ROOT", 179, 2),
        root_clock("ENET2_CLK_ROOT", 180, 2),
        root_clock("ENET_25M_CLK_ROOT", 182, 2),
        root_clock("ENET_QOS_CLK_ROOT", 181, 2),
        root_clock("ENET_TIMER1_CLK_ROOT", 183, 2),
        root_clock("ENET_TIMER2_CLK_ROOT", 184, 2),
        root_clock("ENET_TIMER3_CLK_ROOT", 185, 2),
        root_clock("M4_CLK_ROOT", 129, 0),
        root_clock("M4_SYSTICK_CLK_ROOT", 135, 0),
        root_clock("M7_CLK_ROOT", 128, 4),
        root_clock("M7_SYSTICK_CLK_ROOT", 136, 2),
        root_clock("OSC_24M_OUT", 229, 0),
        root_clock("OSC_RC_400M", 227, 0),
    ];
    proof {
        lemma_imxrt1170_names_distinct();
        assert(view_entries(root_clocks@) =~= imxrt1170_table());
    }
    Imxrt::new(IMXRT1170_CCM_OBS, root_clocks)
}

/// The CCM_OBS block of the i.MX RT 1180 MCUs: its zeroth control register.
pub const IMXRT1180_CCM_OBS: u64 = 0x4445_4400;

/// The CCM_OBS block and root clocks of the i.MX RT 1180 MCUs.
pub fn imxrt1180() -> (r: Imxrt)
    ensures
        r.wf(),
        r.base() == IMXRT1180_CCM_OBS,
        r.entries() == imxrt1180_table(),
        r.names() == imxrt1180_table().map_values(|e: (Seq<char>, RootClock)| e.0),
        r.clocks() == entries_map(imxrt1180_table()),
{
    let root_clocks = vec![
        root_clock("FLEXSPI1_CLK_ROOT", 149, 0),
        root_clock("M33_CLK_ROOT", 129, 0),
        root_clock("OSC_24M_OUT", 5, 0),
        root_clock("OSC_RC_24M", 2, 0),
        root_clock("OSC_RC_400M", 3, 0),
        root_clock("PLL_480_DIV2", 16, 0),
        root_clock("PLL_480_OUT", 15, 0),
        root_clock("PLL_480_PFD0", 17, 0),
        root_clock("PLL_480_PFD1", 18, 0),
        root_clock("PLL_480_PFD2", 19, 0),
        root_clock("PLL_480_PFD3", 20, 0),
    ];
    proof {
        lemma_imxrt1180_names_distinct();
        assert(view_entries(root_clocks@) =~= imxrt1180_table());
    }
    Imxrt::new(IMXRT1180_CCM_OBS, root_clocks)
}

} // verus!
