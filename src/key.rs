use vstd::prelude::*;

verus! {

/// Identifies one asset inside an [`AssetStore`](crate::AssetStore).
///
/// A key is either a generational runtime index, packed into 64 bits, or a
/// 128-bit UUID fixed when the asset was registered. Two keys name the same
/// asset exactly when they are equal.
#[derive(Clone, Copy, Debug, PartialEq, Eq, Structural, Hash)]
pub enum AssetKey {
    /// A runtime index: generation in the high 32 bits, slot in the low 32 bits.
    Index { bits: u64 },
    /// A stable identifier given when the asset was registered.
    Uuid { value: u128 },
}

} // verus!
