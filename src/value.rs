use vstd::prelude::*;

verus! {

/// Two to the sixty-fourth: the weight of the high word.
pub open spec fn word_base() -> nat {
    0x1_0000_0000_0000_0000
}

/// A 128-bit identifier, held as two words.
///
/// `v1` holds the first eight bytes of the identifier in network order (most
/// significant first), `v2` the last eight. Identifiers are ordered as the
/// 128-bit numbers they spell with `v1` on top, which is the byte-wise order
/// of the sixteen bytes; the canonical text spells the same number in
/// hexadecimal.
#[derive(Clone, Copy, Debug, PartialEq, Eq, Structural, Ord, Hash)]
pub struct UUID {
    pub v1: u64,
    pub v2: u64,
}

impl UUID {
    /// The identifier as one 128-bit number.
    pub open spec fn value(self) -> nat {
        self.v1 as nat * word_base() + self.v2 as nat
    }

    /// The identifier with every bit clear.
    pub open spec fn zero() -> UUID {
        UUID { v1: 0, v2: 0 }
    }

    /// The version field: the high four bits of the seventh byte.
    pub open spec fn version(self) -> u64 {
        (self.v1 >> 12u64) & 0xf
    }

    /// The variant field: the high two bits of the ninth byte (`2` for the
    /// layout of RFC 4122).
    pub open spec fn variant(self) -> u64 {
        self.v2 >> 62u64
    }

    /// The 60-bit timestamp of a time-based identifier: `time_hi` (without the
    /// version), then `time_mid`, then `time_low`.
    pub open spec fn timestamp(self) -> u64 {
        ((self.v1 & 0xfff) << 48u64) | (((self.v1 >> 16u64) & 0xffff) << 32u64) | (self.v1
            >> 32u64)
    }

    /// The 14-bit clock sequence of a time-based identifier.
    pub open spec fn clock_seq(self) -> u64 {
        (self.v2 >> 48u64) & 0x3fff
    }

    /// The 48-bit node of a time-based identifier.
    pub open spec fn node(self) -> u64 {
        self.v2 & 0xffff_ffff_ffff
    }

    /// Strict order of identifiers.
    pub open spec fn less(self, other: UUID) -> bool {
        self.value() < other.value()
    }

    /// Three-way comparison of identifiers.
    pub open spec fn order(self, other: UUID) -> core::cmp::Ordering {
        if self.value() < other.value() {
            core::cmp::Ordering::Less
        } else if self.value() == other.value() {
            core::cmp::Ordering::Equal
        } else {
            core::cmp::Ordering::Greater
        }
    }
}

/// Comparing the high words first and the low words after is comparing the
/// 128-bit numbers.
pub proof fn lemma_words_order(a: UUID, b: UUID)
    ensures
        a.value() < b.value() <==> (a.v1 < b.v1 || (a.v1 == b.v1 && a.v2 < b.v2)),
        a.value() == b.value() <==> a == b,
{
    let x1 = a.v1 as int;
    let y1 = b.v1 as int;
    let x2 = a.v2 as int;
    let y2 = b.v2 as int;
    let w = word_base() as int;
    assert(x1 < y1 ==> x1 * w + x2 < y1 * w + y2) by (nonlinear_arith)
        requires
            0 <= x2 < w,
            0 <= y2 < w,
    ;
    assert(x1 > y1 ==> x1 * w + x2 > y1 * w + y2) by (nonlinear_arith)
        requires
            0 <= x2 < w,
            0 <= y2 < w,
    ;
}

/// Equality and comparison form a total order: comparison is reflexive,
/// says `Equal` exactly on equal identifiers, is antisymmetric and transitive,
/// and equality is symmetric and transitive.
pub proof fn lemma_order_laws(a: UUID, b: UUID, c: UUID)
    ensures
        a == a,
        a.order(a) == core::cmp::Ordering::Equal,
        a.order(b) == core::cmp::Ordering::Equal <==> a == b,
        a == b ==> b == a,
        a == b && b == c ==> a == c,
        a.order(b) == core::cmp::Ordering::Less <==> b.order(a) == core::cmp::Ordering::Greater,
        a.order(b) == core::cmp::Ordering::Less || a.order(b) == core::cmp::Ordering::Equal
            || a.order(b) == core::cmp::Ordering::Greater,
        a.order(b) == core::cmp::Ordering::Less && b.order(c) == core::cmp::Ordering::Less
            ==> a.order(c) == core::cmp::Ordering::Less,
        a.order(b) == core::cmp::Ordering::Greater && b.order(c)
            == core::cmp::Ordering::Greater ==> a.order(c) == core::cmp::Ordering::Greater,
{
    lemma_words_order(a, b);
}

/// The identifier with every bit clear is below every identifier whose
/// version field is set, as every generated one is.
pub proof fn lemma_zero_below_versioned(u: UUID)
    requires
        u.version() != 0,
    ensures
        UUID::zero().less(u),
        UUID::zero().order(u) == core::cmp::Ordering::Less,
{
    let v1 = u.v1;
    assert((v1 >> 12u64) & 0xf != 0 ==> v1 != 0) by (bit_vector);
    assert(u.value() >= u.v1 as nat * word_base()) by (nonlinear_arith)
        requires
            u.value() == u.v1 as nat * word_base() + u.v2 as nat,
    ;
    assert(u.v1 as nat * word_base() >= word_base()) by (nonlinear_arith)
        requires
            u.v1 >= 1,
    ;
}

impl PartialOrd for UUID {
    fn partial_cmp(&self, other: &UUID) -> (r: Option<core::cmp::Ordering>)
        ensures
            r == Some(self.order(*other)),
    {
        Some(compare(self, other))
    }
}

impl vstd::std_specs::cmp::PartialOrdSpecImpl for UUID {
    open spec fn obeys_partial_cmp_spec() -> bool {
        true
    }

    open spec fn partial_cmp_spec(&self, other: &UUID) -> Option<core::cmp::Ordering> {
        Some(self.order(*other))
    }
}

/// Three-way comparison: by the high words, then by the low words.
pub fn compare(a: &UUID, b: &UUID) -> (r: core::cmp::Ordering)
    ensures
        r == a.order(*b),
        r == core::cmp::Ordering::Equal <==> *a == *b,
{
    proof {
        lemma_words_order(*a, *b);
        lemma_words_order(*b, *a);
    }
    if a.v1 < b.v1 {
        core::cmp::Ordering::Less
    } else if a.v1 > b.v1 {
        core::cmp::Ordering::Greater
    } else if a.v2 < b.v2 {
        core::cmp::Ordering::Less
    } else if a.v2 > b.v2 {
        core::cmp::Ordering::Greater
    } else {
        core::cmp::Ordering::Equal
    }
}

/// A full copy of an identifier.
pub fn clone(uuid: UUID) -> (r: UUID)
    ensures
        r == uuid,
{
    UUID { v1: uuid.v1, v2: uuid.v2 }
}

} // verus!
