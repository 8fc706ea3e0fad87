//! Reading iHerb's pages: the text rules every parser shares, navigation,
//! product pages and search pages.

pub mod helpers;
pub mod navigation;
pub mod product;
pub mod search;
pub mod structured;
