pub mod element;
pub mod export;
pub mod interaction;
pub mod rect;
pub mod scene;
pub mod store;
pub mod widget;
pub mod widget_kind;
