pub mod logical;
