pub mod rope_defect_kind;
pub mod defects;
pub mod mad;

pub use rope_defect_kind::RopeDefectKind;
pub use defects::Defects;
pub use mad::{Bend, Mad, MadCtx, MadError};
pub mod rope_defect;

pub use rope_defect::{EdgeStats, ScaledThreshold};
pub mod rope_distortions;

pub use rope_distortions::RopeDistortions;
pub mod edge_scan;
pub mod edges;

pub use edges::{Edges, Side};
pub mod graham;

pub use graham::{FindStart, FindStartCtx, Sort, SortByAngCtx};
pub mod fine_contours;
pub mod mat_type;

pub use mat_type::MatType;
pub mod detecting_contours;

pub use detecting_contours::{DetectingContours, DetectingContoursCtx, PixelImage};
pub mod context;

pub use context::{
    ContextRead, EdgeDetectionCtx, FastEdgesCtx, FineEdgesCtx, MetaCtx, ResultCtx, RopeDefectCtx,
    RopeDistortionsCtx,
};
pub mod conf;

pub use conf::{BitwiseAndConf, CroppingConf};
pub mod expansion_contraction;

pub use expansion_contraction::{Bond, MADCtx, ZScoreCtx};
pub mod buffer;

pub use buffer::FrameDelay;
pub mod auto_correction;
pub mod f32_distance;
