pub mod boundary;
