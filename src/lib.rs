//! Rewrites FASTQ headers so that the second index sequence (i5) is
//! reverse-complemented, record by record.

pub mod search;
pub mod dna;
pub mod header;
pub mod line;
pub mod record;
