//! The logic of a set of Node.js native addons, verified with Verus.
//!
//! - [`text`]: reversing a string by characters (`reverseString`);
//! - [`rotate`]: rotating an array or a byte buffer one place to the right
//!   (`rotateArray`, `rotateSharedBuffer`);
//! - [`array`]: the bookkeeping of reading a JavaScript array element by
//!   element;
//! - [`my_object`]: the native state behind the `MyObject` class.
//!
//! The calls into the N-API runtime itself live with the addon entry points,
//! outside this library.

pub mod array;
pub mod my_object;
pub mod rotate;
pub mod text;

pub use array::ArrayDowncast;
pub use my_object::MyObject;
pub use rotate::{rotate_array, rotate_right, rotate_shared_buffer};
pub use text::reverse_string;
