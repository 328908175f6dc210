//! An animated ASCII-art renderer core: luminance quantization, character
//! grids, integer fixed-point rotation transforms, and the angle-advancement
//! clock that drives the animation.

pub mod clock;
pub mod grid;
pub mod imagesrc;
pub mod quantize;
pub mod render;
pub mod rotate;

pub use clock::AnimState;
pub use clock::Axis;
pub use clock::parse_axis;
pub use grid::CharGrid;
pub use grid::build_grid;
pub use imagesrc::LumaImage;
pub use imagesrc::grid_from_image;
pub use quantize::gradient_char;
pub use quantize::quantize;
pub use render::render_frame;
pub use rotate::Trig;
pub use rotate::Trig3;
pub use rotate::rotate_grid2;
pub use rotate::rotate_grid3;
