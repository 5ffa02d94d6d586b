//! Disposable example code: small functions whose parsed syntax trees
//! exercise the walker. They carry full contracts like everything else,
//! but nothing in the library depends on them.

pub mod branches;
pub mod loops;
pub mod sorting;
