//! The Rust side of the Python extension.

use vstd::prelude::*;

verus! {

/// The class exported to Python.
pub struct Rusted();

impl Rusted {
    /// A new instance.
    pub fn new() -> (r: Rusted) {
        Rusted()
    }

    /// The line `hello_world_rust_test` prints.
    pub fn hello_world_message() -> (r: &'static str)
        ensures
            r@ == "RUST: Hello world\n"@,
    {
        "RUST: Hello world\n"
    }
}

} // verus!
