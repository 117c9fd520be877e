//! Typed access to the one asset that a singleton handle resource points at.
//!
//! An [`AssetStore`] maps asset keys to asset values. A resource that implements
//! [`SingletonHandle`] names exactly one key at a time. The accessors
//! [`AssetSingleton`] (shared) and [`AssetSingletonMut`] (exclusive) combine the
//! two, so that game code asks for "the asset of this resource" in one call.

pub mod key;
pub mod singleton;
pub mod store;

pub use key::AssetKey;
pub use singleton::{AssetSingleton, AssetSingletonMut, SingletonHandle, SingletonHolder};
pub use store::AssetStore;
