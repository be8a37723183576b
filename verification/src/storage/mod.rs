pub mod source;
