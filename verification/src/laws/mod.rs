//! What holds of whole operations, said in terms of what guest code is asked and answers, and of the
//! bytes in its memory.
pub mod memory;
pub mod calls;
pub mod guest;
pub mod linking;
pub mod loading;
pub mod exports;
pub mod offers;
pub mod values;
pub mod origins;
pub mod operations;
pub mod making;
