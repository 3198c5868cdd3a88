pub mod divisibility;
pub mod driver;
pub mod fib;
pub mod gcd;
pub mod list;
