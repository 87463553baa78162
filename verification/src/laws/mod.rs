//! What the operations of the memory are for, stated over what goes in and what comes out.
pub mod answering;
pub mod choosing;
pub mod continuing;
pub mod crossing;
pub mod discovering;
pub mod extracting;
pub mod federating;
pub mod indexing;
pub mod keeping;
pub mod letting_out;
pub mod linking;
pub mod lists;
pub mod parting;
pub mod quoting;
pub mod reaching;
pub mod reading;
pub mod recording;
pub mod searching;
pub mod starting;
pub mod texts;
