//! A singly-linked list of borrowed items, with append, remove-last and a
//! decimal rendering of the contents.

mod list;
mod render;

pub use list::List;
pub use list::Node;
pub use list::count_pops;
pub use list::count_pushes;
pub use list::lemma_length_after_bounds;
pub use list::lemma_length_after_no_underflow;
pub use list::lemma_length_after_step;
pub use list::length_after;
pub use render::decimal_of;
pub use render::lemma_items_rendered_push;
pub use render::digit_char;
pub use render::digits_of;
pub use render::items_rendered;
pub use render::rendered;
