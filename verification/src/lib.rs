//! Resolves catalog identifiers found in file and directory names into
//! readable titles, and plans the renames of the entries that carry them.
//!
//! An identifier is classified by its format (`work`), which gives the
//! address of its page (`lookup`) and the queries that find the product
//! id, the title and the publisher on that page (`extract`). The three
//! fields are composed into a display name that is safe as a path segment
//! (`name`). `pipeline` joins these steps for one identifier.
//!
//! A batch works through a list of directories (`config`). It orders the
//! entries of each directory by name and keeps the candidates (`entry`,
//! `scan`), and decides step by step what is read, fetched and renamed
//! (`batch`). The batch itself touches neither disk nor network: a driver
//! performs each action and reports back what came of it. What holds of
//! every step is proved in `guarantees`.

pub mod text;
pub mod work;
pub mod lookup;
pub mod extract;
pub mod name;
pub mod pipeline;
pub mod entry;
pub mod scan;
pub mod batch;
pub mod config;
pub mod guarantees;
