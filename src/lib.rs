//! A command-launcher engine: command resolution, data providers and the
//! search/preview/execute orchestration that ties them together.

pub mod apps;
pub mod bus;
pub mod desktop;
pub mod emoji;
pub mod model;
pub mod normalize;
pub mod provider;
pub mod rank;
pub mod registry;
pub mod text;
