//! Interpreter configuration: a stack of configuration sources, each of
//! which may supply a value; the defaults come last.

use vstd::prelude::*;

verus! {

/// A source of configuration values.  `None` means the source has no
/// opinion and the next one is consulted.
pub trait ZConfig {
    fn stack_size(&self) -> (r: Option<usize>);
}

/// A list of configuration choices for the stack size, consulted in
/// order; the first `Some` wins.
pub struct ZConfigStack {
    pub sizes: Vec<Option<usize>>,
}

impl ZConfig for ZConfigStack {
    fn stack_size(&self) -> (r: Option<usize>) {
        let mut i: usize = 0;
        while i < self.sizes.len()
            decreases self.sizes@.len() - i,
        {
            if let Some(n) = self.sizes[i] {
                return Some(n);
            }
            i = i + 1;
        }
        None
    }
}

/// The built-in defaults: a 61440-byte stack.
pub struct ZDefaults {}

impl ZDefaults {
    pub fn new() -> (r: ZDefaults) {
        ZDefaults {  }
    }
}

impl ZConfig for ZDefaults {
    fn stack_size(&self) -> (r: Option<usize>) {
        Some(0xf000)
    }
}

} // verus!
