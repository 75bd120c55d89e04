//! Damage flags: a closed set of named attributes of a damage event, held as
//! a bitmask and written in a log line as names separated by `|`.
use vstd::prelude::*;

use crate::text::{
    chars_of, lemma_run_end_bounds, run_end, same_text, scan_run, Class,
};

verus! {

/// One attribute of a damage event.
#[derive(Clone, Copy, PartialEq, Eq, Structural, Debug)]
pub enum DamageFlag {
    /// DMG_GENERIC: indirect damage or other.
    Generic,
    /// DMG_DIRECT: a direct projectile hit.
    Direct,
    /// DMG_BLAST: an explosion without a projectile hit.
    Blast,
    /// DMG_ENERGY: an energy weapon.
    Energy,
    /// DMG_COLLISION: a collision.
    Collision,
    /// DMG_FLAME: flames; always continuous.
    Flame,
    /// CONTINUOUS: a stream of damage.
    Continuous,
    /// CONTACT: damage involving touch.
    Contact,
    /// PIERCING: damage that pierces parts.
    Piercing,
    /// PIERCING_TRANSITION: piercing that loses damage per pierced layer.
    PiercingTransition,
    /// DIRECT_PIERCING: piercing that ignores the pierced layers.
    DirectPiercing,
    /// IGNORE_DAMAGE_SCALE: mostly explosive damage.
    IgnoreDamageScale,
    /// SUICIDE: self-detonation, also mines and fuse drones.
    Suicide,
    /// SUICIDE_DESPAWN: self-destruction that resulted in death.
    SuicideDespawn,
    /// HUD_IMPORTANT: yellow damage.
    Important,
    /// HUD_HIDDEN: hidden damage.
    Hidden,
    /// HIGH_CAR_RESIST: less damage than expected, due to a high cabin resistance.
    HighResist,
}

/// The number of damage flags; each has a bit below this index.
pub const FLAG_COUNT: u32 = 17;

impl DamageFlag {
    /// The position of this flag's bit in a mask.
    pub open spec fn index(self) -> nat {
        match self {
            DamageFlag::Generic => 0,
            DamageFlag::Direct => 1,
            DamageFlag::Blast => 2,
            DamageFlag::Energy => 3,
            DamageFlag::Collision => 4,
            DamageFlag::Flame => 5,
            DamageFlag::Continuous => 6,
            DamageFlag::Contact => 7,
            DamageFlag::Piercing => 8,
            DamageFlag::PiercingTransition => 9,
            DamageFlag::DirectPiercing => 10,
            DamageFlag::IgnoreDamageScale => 11,
            DamageFlag::Suicide => 12,
            DamageFlag::SuicideDespawn => 13,
            DamageFlag::Important => 14,
            DamageFlag::Hidden => 15,
            DamageFlag::HighResist => 16,
        }
    }

    pub open spec fn spec_name(self) -> Seq<char> {
        match self {
            DamageFlag::Generic => "DMG_GENERIC"@,
            DamageFlag::Direct => "DMG_DIRECT"@,
            DamageFlag::Blast => "DMG_BLAST"@,
            DamageFlag::Energy => "DMG_ENERGY"@,
            DamageFlag::Collision => "DMG_COLLISION"@,
            DamageFlag::Flame => "DMG_FLAME"@,
            DamageFlag::Continuous => "CONTINUOUS"@,
            DamageFlag::Contact => "CONTACT"@,
            DamageFlag::Piercing => "PIERCING"@,
            DamageFlag::PiercingTransition => "PIERCING_TRANSITION"@,
            DamageFlag::DirectPiercing => "DIRECT_PIERCING"@,
            DamageFlag::IgnoreDamageScale => "IGNORE_DAMAGE_SCALE"@,
            DamageFlag::Suicide => "SUICIDE"@,
            DamageFlag::SuicideDespawn => "SUICIDE_DESPAWN"@,
            DamageFlag::Important => "HUD_IMPORTANT"@,
            DamageFlag::Hidden => "HUD_HIDDEN"@,
            DamageFlag::HighResist => "HIGH_CAR_RESIST"@,
        }
    }

    /// The position of this flag's bit in a mask.
    pub fn bit_index(&self) -> (r: u32)
        ensures
            r == self.index(),
            r < FLAG_COUNT,
    {
        match self {
            DamageFlag::Generic => 0,
            DamageFlag::Direct => 1,
            DamageFlag::Blast => 2,
            DamageFlag::Energy => 3,
            DamageFlag::Collision => 4,
            DamageFlag::Flame => 5,
            DamageFlag::Continuous => 6,
            DamageFlag::Contact => 7,
            DamageFlag::Piercing => 8,
            DamageFlag::PiercingTransition => 9,
            DamageFlag::DirectPiercing => 10,
            DamageFlag::IgnoreDamageScale => 11,
            DamageFlag::Suicide => 12,
            DamageFlag::SuicideDespawn => 13,
            DamageFlag::Important => 14,
            DamageFlag::Hidden => 15,
            DamageFlag::HighResist => 16,
        }
    }

    /// The token that names this flag in a log line.
    pub fn name(&self) -> (r: &'static str)
        ensures
            r@ == self.spec_name(),
    {
        match self {
            DamageFlag::Generic => "DMG_GENERIC",
            DamageFlag::Direct => "DMG_DIRECT",
            DamageFlag::Blast => "DMG_BLAST",
            DamageFlag::Energy => "DMG_ENERGY",
            DamageFlag::Collision => "DMG_COLLISION",
            DamageFlag::Flame => "DMG_FLAME",
            DamageFlag::Continuous => "CONTINUOUS",
            DamageFlag::Contact => "CONTACT",
            DamageFlag::Piercing => "PIERCING",
            DamageFlag::PiercingTransition => "PIERCING_TRANSITION",
            DamageFlag::DirectPiercing => "DIRECT_PIERCING",
            DamageFlag::IgnoreDamageScale => "IGNORE_DAMAGE_SCALE",
            DamageFlag::Suicide => "SUICIDE",
            DamageFlag::SuicideDespawn => "SUICIDE_DESPAWN",
            DamageFlag::Important => "HUD_IMPORTANT",
            DamageFlag::Hidden => "HUD_HIDDEN",
            DamageFlag::HighResist => "HIGH_CAR_RESIST",
        }
    }

    /// The flag that `t` names.
    pub fn from_name(t: &str) -> (r: Option<DamageFlag>)
        ensures
            r == flag_named(t@),
    {
        let s = chars_of(t);
        assert(s@.subrange(0, s@.len() as int) =~= t@);
        flag_at(&s, 0, s.len())
    }
}

/// The flag whose token is exactly `t`.
pub open spec fn flag_named(t: Seq<char>) -> Option<DamageFlag> {
    if t == "DMG_GENERIC"@ {
        Some(DamageFlag::Generic)
    } else if t == "DMG_DIRECT"@ {
        Some(DamageFlag::Direct)
    } else if t == "DMG_BLAST"@ {
        Some(DamageFlag::Blast)
    } else if t == "DMG_ENERGY"@ {
        Some(DamageFlag::Energy)
    } else if t == "DMG_COLLISION"@ {
        Some(DamageFlag::Collision)
    } else if t == "DMG_FLAME"@ {
        Some(DamageFlag::Flame)
    } else if t == "CONTINUOUS"@ {
        Some(DamageFlag::Continuous)
    } else if t == "CONTACT"@ {
        Some(DamageFlag::Contact)
    } else if t == "PIERCING"@ {
        Some(DamageFlag::Piercing)
    } else if t == "PIERCING_TRANSITION"@ {
        Some(DamageFlag::PiercingTransition)
    } else if t == "DIRECT_PIERCING"@ {
        Some(DamageFlag::DirectPiercing)
    } else if t == "IGNORE_DAMAGE_SCALE"@ {
        Some(DamageFlag::IgnoreDamageScale)
    } else if t == "SUICIDE"@ {
        Some(DamageFlag::Suicide)
    } else if t == "SUICIDE_DESPAWN"@ {
        Some(DamageFlag::SuicideDespawn)
    } else if t == "HUD_IMPORTANT"@ {
        Some(DamageFlag::Important)
    } else if t == "HUD_HIDDEN"@ {
        Some(DamageFlag::Hidden)
    } else if t == "HIGH_CAR_RESIST"@ {
        Some(DamageFlag::HighResist)
    } else {
        None
    }
}

/// The flag named by the characters `i..j` of `s`.
pub fn flag_at(s: &Vec<char>, i: usize, j: usize) -> (r: Option<DamageFlag>)
    requires
        i <= j <= s@.len(),
    ensures
        r == flag_named(s@.subrange(i as int, j as int)),
{
    if same_text(s, i, j, "DMG_GENERIC") {
        Some(DamageFlag::Generic)
    } else if same_text(s, i, j, "DMG_DIRECT") {
        Some(DamageFlag::Direct)
    } else if same_text(s, i, j, "DMG_BLAST") {
        Some(DamageFlag::Blast)
    } else if same_text(s, i, j, "DMG_ENERGY") {
        Some(DamageFlag::Energy)
    } else if same_text(s, i, j, "DMG_COLLISION") {
        Some(DamageFlag::Collision)
    } else if same_text(s, i, j, "DMG_FLAME") {
        Some(DamageFlag::Flame)
    } else if same_text(s, i, j, "CONTINUOUS") {
        Some(DamageFlag::Continuous)
    } else if same_text(s, i, j, "CONTACT") {
        Some(DamageFlag::Contact)
    } else if same_text(s, i, j, "PIERCING") {
        Some(DamageFlag::Piercing)
    } else if same_text(s, i, j, "PIERCING_TRANSITION") {
        Some(DamageFlag::PiercingTransition)
    } else if same_text(s, i, j, "DIRECT_PIERCING") {
        Some(DamageFlag::DirectPiercing)
    } else if same_text(s, i, j, "IGNORE_DAMAGE_SCALE") {
        Some(DamageFlag::IgnoreDamageScale)
    } else if same_text(s, i, j, "SUICIDE") {
        Some(DamageFlag::Suicide)
    } else if same_text(s, i, j, "SUICIDE_DESPAWN") {
        Some(DamageFlag::SuicideDespawn)
    } else if same_text(s, i, j, "HUD_IMPORTANT") {
        Some(DamageFlag::Important)
    } else if same_text(s, i, j, "HUD_HIDDEN") {
        Some(DamageFlag::Hidden)
    } else if same_text(s, i, j, "HIGH_CAR_RESIST") {
        Some(DamageFlag::HighResist)
    } else {
        None
    }
}

/// Whether bit `n` of `bits` is set.
pub open spec fn bit_set(bits: u32, n: nat) -> bool {
    (bits >> n) & 1 == 1
}

/// A set of damage flags, one bit per flag.
#[derive(Clone, Copy, PartialEq, Eq, Structural, Debug)]
pub struct DamageFlags {
    bits: u32,
}

impl View for DamageFlags {
    type V = Set<DamageFlag>;

    closed spec fn view(&self) -> Set<DamageFlag> {
        Set::new(|f: DamageFlag| bit_set(self.bits, f.index()))
    }
}

proof fn lemma_bit_or(b: u32, c: u32, j: u32)
    requires
        j < 32,
    ensures
        ((b | c) >> j) & 1 == 1 <==> ((b >> j) & 1 == 1 || (c >> j) & 1 == 1),
{
    assert(((b | c) >> j) & 1 == 1 <==> ((b >> j) & 1 == 1 || (c >> j) & 1 == 1))
        by (bit_vector)
        requires
            j < 32,
    ;
}

proof fn lemma_bit_single(i: u32, j: u32)
    requires
        i < 32,
        j < 32,
    ensures
        ((1u32 << i) >> j) & 1 == 1 <==> i == j,
{
    assert(((1u32 << i) >> j) & 1 == 1 <==> i == j) by (bit_vector)
        requires
            i < 32,
            j < 32,
    ;
}

proof fn lemma_bit_or_below(b: u32, c: u32)
    requires
        b < 0x20000,
        c < 0x20000,
    ensures
        b | c < 0x20000,
{
    assert(b | c < 0x20000) by (bit_vector)
        requires
            b < 0x20000,
            c < 0x20000,
    ;
}

proof fn lemma_no_bits(j: u32)
    requires
        j < 32,
    ensures
        (0u32 >> j) & 1 == 0,
{
    assert((0u32 >> j) & 1 == 0) by (bit_vector);
}

proof fn lemma_index_injective(f: DamageFlag, g: DamageFlag)
    ensures
        f.index() == g.index() <==> f == g,
{
}

impl DamageFlags {
    /// Only the bits of the flags may be set.
    pub closed spec fn wf(self) -> bool {
        self.bits < 0x20000
    }

    pub closed spec fn spec_bits(self) -> u32 {
        self.bits
    }

    /// The empty set.
    pub fn empty() -> (r: DamageFlags)
        ensures
            r@ == Set::<DamageFlag>::empty(),
            r.wf(),
    {
        let r = DamageFlags { bits: 0 };
        assert forall|f: DamageFlag| !r@.contains(f) by {
            lemma_no_bits(f.index() as u32);
        }
        assert(r@ =~= Set::<DamageFlag>::empty());
        r
    }

    /// The set holding the one flag `f`.
    pub fn single(f: DamageFlag) -> (r: DamageFlags)
        ensures
            r@ == Set::<DamageFlag>::empty().insert(f),
            r.wf(),
    {
        let i = f.bit_index();
        let r = DamageFlags { bits: 1u32 << i };
        assert(1u32 << i < 0x20000) by (bit_vector)
            requires
                i < 17,
        ;
        assert forall|g: DamageFlag| r@.contains(g) <==> g == f by {
            lemma_bit_single(i, g.index() as u32);
            lemma_index_injective(f, g);
        }
        assert(r@ =~= Set::<DamageFlag>::empty().insert(f));
        r
    }

    /// The flags of either set.
    pub fn union(&self, other: &DamageFlags) -> (r: DamageFlags)
        requires
            self.wf(),
            other.wf(),
        ensures
            r@ == self@.union(other@),
            r.wf(),
    {
        let r = DamageFlags { bits: self.bits | other.bits };
        proof {
            lemma_bit_or_below(self.bits, other.bits);
        }
        assert forall|g: DamageFlag| r@.contains(g) <==> (self@.contains(g) || other@.contains(g))
            by {
            lemma_bit_or(self.bits, other.bits, g.index() as u32);
        }
        assert(r@ =~= self@.union(other@));
        r
    }

    /// Whether `f` is in the set.
    pub fn contains(&self, f: DamageFlag) -> (r: bool)
        ensures
            r == self@.contains(f),
    {
        let i = f.bit_index();
        (self.bits >> i) & 1 == 1
    }

    /// The mask: bit `f.index()` is set for each flag `f` of the set.
    pub fn bits(&self) -> (r: u32)
        ensures
            r == self.spec_bits(),
            forall|f: DamageFlag| bit_set(r, f.index()) <==> self@.contains(f),
    {
        self.bits
    }
}

/// The flags written in `t`: names separated by `|`, where a `|` at the very
/// end may be left out or not; `None` where a name is unknown or empty.
pub open spec fn flags_in(t: Seq<char>) -> Option<Set<DamageFlag>>
    decreases t.len(),
{
    if t.len() == 0 {
        Some(Set::empty())
    } else {
        let j = run_end(t, 0, Class::Except('|'));
        let next = if j < t.len() {
            j + 1
        } else {
            j
        };
        proof {
            lemma_run_end_bounds(t, 0, Class::Except('|'));
        }
        match flag_named(t.subrange(0, j)) {
            None => None,
            Some(f) => match flags_in(t.subrange(next, t.len() as int)) {
                None => None,
                Some(rest) => Some(rest.insert(f)),
            },
        }
    }
}

/// `o` with the flags `a` added, where it holds a set.
pub open spec fn with_flags(o: Option<Set<DamageFlag>>, a: Set<DamageFlag>) -> Option<
    Set<DamageFlag>,
> {
    match o {
        Some(x) => Some(x.union(a)),
        None => None,
    }
}

/// Reads the flags written in the characters of `s` from `i` to the end.
pub fn parse_flags_at(s: &Vec<char>, i: usize) -> (r: Option<DamageFlags>)
    requires
        i <= s@.len(),
    ensures
        match r {
            Some(fl) => flags_in(s@.subrange(i as int, s@.len() as int)) == Some(fl@) && fl.wf(),
            None => flags_in(s@.subrange(i as int, s@.len() as int)) is None,
        },
{
    let mut acc = DamageFlags::empty();
    let mut p = i;
    let n = s.len();
    assert(flags_in(s@.subrange(i as int, n as int)) =~~= with_flags(
        flags_in(s@.subrange(p as int, n as int)),
        acc@,
    )) by {
        match flags_in(s@.subrange(p as int, n as int)) {
            Some(x) => {
                assert(x.union(acc@) =~= x);
            },
            None => {},
        }
    }
    while p < n
        invariant
            i <= p <= n,
            n == s@.len(),
            acc.wf(),
            flags_in(s@.subrange(i as int, n as int)) == with_flags(
                flags_in(s@.subrange(p as int, n as int)),
                acc@,
            ),
        decreases n - p,
    {
        let ghost t = s@.subrange(p as int, n as int);
        let j = scan_run(s, p, Class::Except('|'));
        proof {
            crate::text::lemma_run_end_shift(s@, p as int, p as int, Class::Except('|'));
            assert(t.subrange(0, j - p) =~= s@.subrange(p as int, j as int));
        }
        let f = match flag_at(s, p, j) {
            Some(f) => f,
            None => {
                return None;
            },
        };
        let next = if j < n {
            j + 1
        } else {
            j
        };
        proof {
            assert(t.subrange(next - p, t.len() as int) =~= s@.subrange(next as int, n as int));
            match flags_in(s@.subrange(next as int, n as int)) {
                Some(x) => {
                    assert(x.insert(f).union(acc@) =~= x.union(acc@.union(set![f])));
                },
                None => {},
            }
        }
        let one = DamageFlags::single(f);
        acc = acc.union(&one);
        p = next;
    }
    assert(s@.subrange(p as int, n as int) =~= Seq::<char>::empty());
    assert(acc@.union(Set::empty()) =~= acc@);
    Some(acc)
}

/// Reads a whole string as flag names separated by `|`.
pub fn parse_damage_flags(text: &str) -> (r: Option<DamageFlags>)
    ensures
        match r {
            Some(fl) => flags_in(text@) == Some(fl@) && fl.wf(),
            None => flags_in(text@) is None,
        },
{
    let s = chars_of(text);
    assert(s@.subrange(0, s@.len() as int) =~= text@);
    parse_flags_at(&s, 0)
}

/// The names of `fs` joined by `|`.
pub open spec fn joined_names(fs: Seq<DamageFlag>) -> Seq<char>
    decreases fs.len(),
{
    if fs.len() == 0 {
        Seq::empty()
    } else if fs.len() == 1 {
        fs[0].spec_name()
    } else {
        fs[0].spec_name() + seq!['|'] + joined_names(fs.drop_first())
    }
}

proof fn lemma_name_facts(f: DamageFlag)
    ensures
        f.spec_name().len() > 0,
        forall|m: int| 0 <= m < f.spec_name().len() ==> f.spec_name()[m] != '|',
        flag_named(f.spec_name()) == Some(f),
{
    reveal_strlit("DMG_GENERIC");
    reveal_strlit("DMG_DIRECT");
    reveal_strlit("DMG_BLAST");
    reveal_strlit("DMG_ENERGY");
    reveal_strlit("DMG_COLLISION");
    reveal_strlit("DMG_FLAME");
    reveal_strlit("CONTINUOUS");
    reveal_strlit("CONTACT");
    reveal_strlit("PIERCING");
    reveal_strlit("PIERCING_TRANSITION");
    reveal_strlit("DIRECT_PIERCING");
    reveal_strlit("IGNORE_DAMAGE_SCALE");
    reveal_strlit("SUICIDE");
    reveal_strlit("SUICIDE_DESPAWN");
    reveal_strlit("HUD_IMPORTANT");
    reveal_strlit("HUD_HIDDEN");
    reveal_strlit("HIGH_CAR_RESIST");
    let n = f.spec_name();
    assert(n[0] == n[0] && n[4] == n[4]);
    assert("DMG_GENERIC"@.len() == 11 && "DMG_GENERIC"@[0] == 'D' && "DMG_GENERIC"@[4] == 'G');
    assert("DMG_DIRECT"@.len() == 10 && "DMG_DIRECT"@[0] == 'D' && "DMG_DIRECT"@[4] == 'D');
    assert("DMG_BLAST"@.len() == 9 && "DMG_BLAST"@[0] == 'D' && "DMG_BLAST"@[4] == 'B');
    assert("DMG_ENERGY"@.len() == 10 && "DMG_ENERGY"@[0] == 'D' && "DMG_ENERGY"@[4] == 'E');
    assert("DMG_COLLISION"@.len() == 13 && "DMG_COLLISION"@[0] == 'D' && "DMG_COLLISION"@[4] == 'C');
    assert("DMG_FLAME"@.len() == 9 && "DMG_FLAME"@[0] == 'D' && "DMG_FLAME"@[4] == 'F');
    assert("CONTINUOUS"@.len() == 10 && "CONTINUOUS"@[0] == 'C' && "CONTINUOUS"@[4] == 'I');
    assert("CONTACT"@.len() == 7 && "CONTACT"@[0] == 'C' && "CONTACT"@[4] == 'A');
    assert("PIERCING"@.len() == 8 && "PIERCING"@[0] == 'P' && "PIERCING"@[4] == 'C');
    assert("PIERCING_TRANSITION"@.len() == 19 && "PIERCING_TRANSITION"@[0] == 'P' && "PIERCING_TRANSITION"@[4] == 'C');
    assert("DIRECT_PIERCING"@.len() == 15 && "DIRECT_PIERCING"@[0] == 'D' && "DIRECT_PIERCING"@[4] == 'C');
    assert("IGNORE_DAMAGE_SCALE"@.len() == 19 && "IGNORE_DAMAGE_SCALE"@[0] == 'I' && "IGNORE_DAMAGE_SCALE"@[4] == 'R');
    assert("SUICIDE"@.len() == 7 && "SUICIDE"@[0] == 'S' && "SUICIDE"@[4] == 'I');
    assert("SUICIDE_DESPAWN"@.len() == 15 && "SUICIDE_DESPAWN"@[0] == 'S' && "SUICIDE_DESPAWN"@[4] == 'I');
    assert("HUD_IMPORTANT"@.len() == 13 && "HUD_IMPORTANT"@[0] == 'H' && "HUD_IMPORTANT"@[4] == 'I');
    assert("HUD_HIDDEN"@.len() == 10 && "HUD_HIDDEN"@[0] == 'H' && "HUD_HIDDEN"@[4] == 'H');
    assert("HIGH_CAR_RESIST"@.len() == 15 && "HIGH_CAR_RESIST"@[0] == 'H' && "HIGH_CAR_RESIST"@[4] == '_');
}

/// Flag names joined by `|`, in any order and with any repetition, read back
/// as exactly the set of the flags named.
pub proof fn lemma_flag_names_round_trip(fs: Seq<DamageFlag>)
    ensures
        flags_in(joined_names(fs)) == Some(fs.to_set()),
    decreases fs.len(),
{
    if fs.len() == 0 {
        assert(fs.to_set() =~= Set::<DamageFlag>::empty());
    } else {
        let t = joined_names(fs);
        let name = fs[0].spec_name();
        let n = name.len() as int;
        lemma_name_facts(fs[0]);
        let rest = fs.drop_first();
        if fs.len() == 1 {
            assert(t == name);
            crate::text::lemma_run_end_stops(t, 0, n, Class::Except('|'));
            assert(t.subrange(0, n) =~= name);
            assert(t.subrange(n, t.len() as int) =~= Seq::<char>::empty());
        } else {
            assert(t == name + seq!['|'] + joined_names(rest));
            assert forall|m: int| 0 <= m < n implies crate::text::in_class(
                Class::Except('|'),
                #[trigger] t[m],
            ) by {
                assert(t[m] == name[m]);
            }
            assert(t[n] == '|');
            crate::text::lemma_run_end_stops(t, 0, n, Class::Except('|'));
            assert(t.subrange(0, n) =~= name);
            assert(t.subrange(n + 1, t.len() as int) =~= joined_names(rest));
            lemma_flag_names_round_trip(rest);
        }
        assert(fs.to_set() =~= rest.to_set().insert(fs[0])) by {
            assert forall|g: DamageFlag| fs.to_set().contains(g) <==> rest.to_set().insert(
                fs[0],
            ).contains(g) by {
                if fs.contains(g) && g != fs[0] {
                    let m = choose|m: int| 0 <= m < fs.len() && fs[m] == g;
                    assert(m > 0);
                    assert(rest[m - 1] == g);
                }
                if rest.contains(g) {
                    let m = choose|m: int| 0 <= m < rest.len() && rest[m] == g;
                    assert(fs[m + 1] == g);
                }
                assert(fs[0] == fs[0]);
                assert(fs.contains(fs[0]));
            }
        }
        if fs.len() == 1 {
            assert(rest.to_set() =~= Set::<DamageFlag>::empty());
        }
    }
}

} // verus!
