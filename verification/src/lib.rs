//! Animation-evaluation core: timecode arithmetic bound to a framerate
//! policy, a tree-indexed keyframe store per animated property, and the
//! stateful tweening engine that caches the active interpolation interval.

pub mod sequence;
pub mod timecode;
pub mod timeline;
pub mod tree;
pub mod value;

pub use timecode::Fraction;
pub use timecode::Framerate;
pub use timecode::Timecode;
pub use sequence::AnimationEngine;
pub use sequence::AnimationEngineStatus;
pub use sequence::Sequence;
pub use timeline::StaticTimeline;
pub use timeline::Timeline;
pub use tree::FrameLeaf;
pub use tree::SecondLeaf;
pub use value::Easing;
pub use value::ErasedValue;
pub use value::Keyframe;
pub use value::Tween;
