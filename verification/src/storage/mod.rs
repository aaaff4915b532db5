//! SDSS v1: the header that every file begins with, and the driver that opens, creates,
//! reads and appends to such files through an abstract raw file.
pub mod header;
pub mod mem;
pub mod rw;
