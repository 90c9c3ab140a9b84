pub mod xml;
