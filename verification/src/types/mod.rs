//! The normalized tag model.
pub mod calendar;
pub mod datetime;
pub mod image;
pub mod tags;

pub use datetime::DateTime;
pub use image::Image;
pub use image::ImageView;
pub use tags::TagOption;
pub use tags::Tags;
pub use tags::TagsView;
