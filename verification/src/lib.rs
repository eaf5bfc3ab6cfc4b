//! Renders the pages of a remote workspace as articles.
//!
//! A page is a tree of typed blocks; each block holds runs of text with
//! inline annotations and, possibly, blocks of its own. The crate reads the
//! tree from the raw nodes that the remote service sends, asks for the
//! children of each node depth first, and renders the complete tree to text
//! that mixes Markdown with a few HTML tags. Around that it builds the
//! queries that bring the pages, reads the pages' properties, and decides
//! what is stored of a page in the blog.
//!
//! Every function states what it returns over the mathematical value of its
//! arguments: a text is a sequence of characters, a tree a value of
//! [`block::BlockView`].

pub mod article;
pub mod block;
pub mod database;
pub mod error;
pub mod fetch;
pub mod filter;
pub mod frame;
pub mod image;
pub mod json;
pub mod notion;
pub mod page;
pub mod property;
pub mod request;
pub mod run;
pub mod sort;
pub mod strings;
pub mod term;
pub mod text;
