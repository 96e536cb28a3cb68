pub mod conf;
pub mod flow;
pub mod frame;
pub mod logdoc;
pub mod numfmt;
pub mod pipeline;
pub mod text;
