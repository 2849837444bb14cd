pub use crate::node::Node;
pub use crate::sdk;
pub use crate::settings::Settings;
