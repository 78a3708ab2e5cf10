pub mod kb;
pub mod page;
pub mod search;
pub mod taxonomy;
pub mod post;
pub mod media;
pub mod spark;
pub mod nav;
pub mod settings;
