pub mod edge;
