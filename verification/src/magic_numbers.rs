use vstd::prelude::*;

verus! {

/// Magic numbers are used to distinguish files or bech32-encoded strings
/// with RGB data of different type.
///
/// NB: These numbers are used with binary data serialization only; they are
/// not a part of the commitments, ids or network-serialized packets.
///
/// Rationale: convenience for wallet data import/export and extra-wallet
/// file storage; additional check not to mis-interpret byte sequences.
///
/// Each tag was derived once, at definition time, as the first 4 bytes of
/// the SHA-256 digest of a fixed ASCII label, and is kept here as a fixed
/// constant; tags are never recomputed at runtime. Keeping the table free
/// of collisions when a kind is added is the definer's responsibility and
/// is proved below in [`lemma_tag_injective`].
#[derive(Clone, Copy, PartialEq, Eq, Structural, Debug, Hash)]
pub enum MagicNumber {
    /// Equals the first 4 bytes of SHA-256("rgb:schema")
    /// = 18429ce35af7f898f765417b28471ab454b89ceff6fc33de77ff5fd98e066bc3
    /// Check with `echo -n "rgb:schema" | shasum -a 256`
    Schema,

    /// Equals the first 4 bytes of SHA-256("rgb:gensis")
    /// = 2e91cbc08b6205efb4f908bb9bd3fcf5c148763f7b23b0506ef64ffd414fc9b4
    Genesis,

    /// Equals the first 4 bytes of SHA-256("rgb:transition")
    /// = bf11926e3db131632bdfa8f996d52d6d19e25d0884c922365ff8cd3c73f10198
    Transition,

    /// Equals the first 4 bytes of SHA-256("rgb:anchor")
    /// = dd53b6f17c16915ecd01de7935b5c38497f6f6c49b97627296496dc31a6ca86b
    Anchor,

    /// Equals the first 4 bytes of SHA-256("rgb:consignment")
    /// = 4c82bf5385ab9027f15f1ce17a8007956fe8f38cbad2ee312cf2c55b72a69420
    Consignment,

    /// Equals the first 4 bytes of SHA-256("rgb:stash")
    /// = cd22a2cb85720d51f1616752cb85059a02f3d35f7dda30a4ca981b59b0924354
    Stash,
}

impl MagicNumber {
    /// The fixed 32-bit tag of this kind.
    pub open spec fn spec_u32(self) -> u32 {
        match self {
            MagicNumber::Schema => 0x18429ce3,
            MagicNumber::Genesis => 0x2e91cbc0,
            MagicNumber::Transition => 0xbf11926e,
            MagicNumber::Anchor => 0xdd53b6f1,
            MagicNumber::Consignment => 0x4c82bf53,
            MagicNumber::Stash => 0xcd22a2cb,
        }
    }

    /// Returns the fixed 32-bit tag of this kind.
    pub fn to_u32(&self) -> (tag: u32)
        ensures
            tag == self.spec_u32(),
    {
        match self {
            MagicNumber::Schema => 0x18429ce3,
            MagicNumber::Genesis => 0x2e91cbc0,
            MagicNumber::Transition => 0xbf11926e,
            MagicNumber::Anchor => 0xdd53b6f1,
            MagicNumber::Consignment => 0x4c82bf53,
            MagicNumber::Stash => 0xcd22a2cb,
        }
    }

    /// Resolves a 32-bit value to the kind whose tag it is. On an
    /// unrecognized value the value itself comes back as the error, so
    /// that callers can report the numeric tag they found.
    pub fn try_from(number: u32) -> (r: Result<MagicNumber, u32>)
        ensures
            match r {
                Ok(kind) => spec_from_tag(number) == Some(kind),
                Err(invalid) => invalid == number && spec_from_tag(number) is None,
            },
    {
        if number == MagicNumber::Schema.to_u32() {
            Ok(MagicNumber::Schema)
        } else if number == MagicNumber::Genesis.to_u32() {
            Ok(MagicNumber::Genesis)
        } else if number == MagicNumber::Transition.to_u32() {
            Ok(MagicNumber::Transition)
        } else if number == MagicNumber::Anchor.to_u32() {
            Ok(MagicNumber::Anchor)
        } else if number == MagicNumber::Consignment.to_u32() {
            Ok(MagicNumber::Consignment)
        } else if number == MagicNumber::Stash.to_u32() {
            Ok(MagicNumber::Stash)
        } else {
            Err(number)
        }
    }
}

/// The partial inverse of [`MagicNumber::spec_u32`]: the kind whose tag is
/// `number`, or `None` when no kind has that tag.
pub open spec fn spec_from_tag(number: u32) -> Option<MagicNumber> {
    if number == MagicNumber::Schema.spec_u32() {
        Some(MagicNumber::Schema)
    } else if number == MagicNumber::Genesis.spec_u32() {
        Some(MagicNumber::Genesis)
    } else if number == MagicNumber::Transition.spec_u32() {
        Some(MagicNumber::Transition)
    } else if number == MagicNumber::Anchor.spec_u32() {
        Some(MagicNumber::Anchor)
    } else if number == MagicNumber::Consignment.spec_u32() {
        Some(MagicNumber::Consignment)
    } else if number == MagicNumber::Stash.spec_u32() {
        Some(MagicNumber::Stash)
    } else {
        None
    }
}

/// Tag table injectivity: two distinct kinds never share a tag.
pub proof fn lemma_tag_injective(k1: MagicNumber, k2: MagicNumber)
    requires
        k1 != k2,
    ensures
        k1.spec_u32() != k2.spec_u32(),
{
}

/// Tag resolution totality: every kind's own tag resolves back to exactly
/// that kind.
pub proof fn lemma_tag_round_trip(kind: MagicNumber)
    ensures
        spec_from_tag(kind.spec_u32()) == Some(kind),
{
}

/// Tag resolution rejects unknown values: a value resolves to no kind
/// exactly when it is no kind's tag.
pub proof fn lemma_from_tag_exhaustive(number: u32)
    ensures
        (spec_from_tag(number) is None) <==> (forall|k: MagicNumber| k.spec_u32() != number),
{
    if spec_from_tag(number) is None {
        assert forall|k: MagicNumber| k.spec_u32() != number by {
            match k {
                MagicNumber::Schema => {},
                MagicNumber::Genesis => {},
                MagicNumber::Transition => {},
                MagicNumber::Anchor => {},
                MagicNumber::Consignment => {},
                MagicNumber::Stash => {},
            }
        }
    }
    if forall|k: MagicNumber| k.spec_u32() != number {
        assert(MagicNumber::Schema.spec_u32() != number);
        assert(MagicNumber::Genesis.spec_u32() != number);
        assert(MagicNumber::Transition.spec_u32() != number);
        assert(MagicNumber::Anchor.spec_u32() != number);
        assert(MagicNumber::Consignment.spec_u32() != number);
        assert(MagicNumber::Stash.spec_u32() != number);
    }
}

} // verus!
