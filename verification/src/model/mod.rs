pub mod session;
pub mod variable;
