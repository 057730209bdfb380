pub mod builder;
