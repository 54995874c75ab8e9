//! Temporal edge compositing: turns a sequence of grayscale frames into
//! "motion trail" edge maps by OR-reducing each frame's edge buffer with
//! the edge buffers of several preceding frames.

mod compose;
mod error;
mod frame;
mod naming;
mod window;

pub use compose::combine_images;
pub use compose::combine_partitioned;
pub use compose::combine_range;
pub use compose::combine_spec;
pub use compose::lemma_combine_commutative;
pub use compose::lemma_combine_empty;
pub use compose::lemma_combine_grouped;
pub use compose::lemma_combine_identity;
pub use compose::lemma_combine_partition;
pub use compose::or_fold;
pub use compose::views_of;
pub use error::Error;
pub use frame::edge_spec;
pub use frame::extract_edges;
pub use frame::sobel_of;
pub use frame::truncate_u16s;
pub use frame::FrameStore;
pub use frame::GrayFrame;
pub use naming::dec_chars;
pub use naming::digit_char;
pub use naming::output_stem;
pub use naming::stem_chars;
pub use window::lemma_empty_window;
pub use window::lemma_spacing_zero_collapses;
pub use window::lemma_target_zero_single;
pub use window::lemma_window_in_range;
pub use window::select_window;
pub use window::window_len;
pub use window::window_seq;
pub use window::WindowSpec;
